use eonix::errno::{EBADF, EEXIST, EINVAL, EISDIR, ENOENT, ENOTDIR, ENOTTY, EOVERFLOW, ESPIPE};
use eonix::file::{
    as_rwa, checked_add_signed, open_check, open_plan, pipe_flags, pipe_write_error,
    terminal_request, terminal_write_chunk, File, FileType, InodeFile, OpenCheck, OpenPlan, PipeInner, PipeWrite,
    PollEvent, SeekOption, TerminalRequest, WriteOffset, O_APPEND, O_CREAT, O_DIRECTORY, O_EXCL,
    O_NONBLOCK, O_RDONLY, O_RDWR, O_TRUNC, O_WRONLY, POLL_READABLE, POLL_WRITABLE,
};
use eonix::filearray::{
    FcntlReply, FileArray, FileId, FD, FD_CLOEXEC, F_DUPFD, F_DUPFD_CLOEXEC, F_GETFD, F_GETFL,
    F_SETFD, F_SETFL, O_CLOEXEC,
};
use eonix::types::Format;

#[test]
fn descriptors_are_allocated_lowest_first() {
    let mut files = FileArray::new();
    assert_eq!(files.open(O_RDONLY, FileId(10)), Ok(FD(0)));
    assert_eq!(files.open(O_RDONLY, FileId(11)), Ok(FD(1)));
    assert_eq!(files.open(O_RDONLY, FileId(12)), Ok(FD(2)));
    assert_eq!(files.get(FD(1)), Some(FileId(11)));
}

#[test]
fn closed_descriptor_is_reused() {
    let mut files = FileArray::new();
    files.open(O_RDONLY, FileId(10)).unwrap();
    files.open(O_RDONLY, FileId(11)).unwrap();
    files.open(O_RDONLY, FileId(12)).unwrap();
    assert_eq!(files.close(FD(1)), Ok(()));
    assert_eq!(files.get(FD(1)), None);
    assert_eq!(files.open(O_RDONLY, FileId(13)), Ok(FD(1)));
    assert_eq!(files.get(FD(1)), Some(FileId(13)));
}

#[test]
fn closing_an_unopened_descriptor_fails() {
    let mut files = FileArray::new();
    assert_eq!(files.close(FD(7)), Err(EBADF));
}

#[test]
fn dup_takes_lowest_free_number() {
    let mut files = FileArray::new();
    files.open(O_RDONLY, FileId(10)).unwrap();
    files.open(O_RDONLY, FileId(11)).unwrap();
    assert_eq!(files.dup(FD(0)), Ok(FD(2)));
    assert_eq!(files.get(FD(2)), Some(FileId(10)));
    assert_eq!(files.dup(FD(9)), Err(EBADF));
}

#[test]
fn dup_to_replaces_target() {
    let mut files = FileArray::new();
    files.open(O_RDONLY, FileId(10)).unwrap();
    files.open(O_RDONLY, FileId(11)).unwrap();
    assert_eq!(files.dup_to(FD(0), FD(1), 0), Ok(FD(1)));
    assert_eq!(files.get(FD(1)), Some(FileId(10)));
    assert_eq!(files.dup_to(FD(0), FD(20), O_CLOEXEC), Ok(FD(20)));
    assert_eq!(files.get(FD(20)), Some(FileId(10)));
    assert_eq!(files.dup_to(FD(5), FD(21), 0), Err(EBADF));
}

#[test]
fn pipe_ends_take_the_two_lowest_numbers() {
    let mut files = FileArray::new();
    assert_eq!(files.pipe(0, FileId(1), FileId(2)), Ok((FD(0), FD(1))));
    assert_eq!(files.get(FD(0)), Some(FileId(1)));
    assert_eq!(files.get(FD(1)), Some(FileId(2)));
}

#[test]
fn console_takes_standard_numbers() {
    let mut files = FileArray::new();
    assert_eq!(
        files.open_console(FileId(1), FileId(2), FileId(3)),
        (FD(0), FD(1), FD(2))
    );
    assert_eq!(files.fcntl(FD(2), F_GETFD, 0), Ok(FcntlReply::Value(FD_CLOEXEC as usize)));
}

#[test]
fn exec_closes_close_on_exec_descriptors() {
    let mut files = FileArray::new();
    files.open(O_RDONLY, FileId(10)).unwrap();
    files.open(O_CLOEXEC, FileId(11)).unwrap();
    files.on_exec();
    assert_eq!(files.get(FD(0)), Some(FileId(10)));
    assert_eq!(files.get(FD(1)), None);
    assert_eq!(files.open(O_RDONLY, FileId(12)), Ok(FD(1)));
}

#[test]
fn fcntl_commands() {
    let mut files = FileArray::new();
    files.open(O_RDONLY, FileId(10)).unwrap();
    assert_eq!(files.fcntl(FD(0), F_GETFD, 0), Ok(FcntlReply::Value(0)));
    assert_eq!(files.fcntl(FD(0), F_SETFD, 1), Ok(FcntlReply::Value(0)));
    assert_eq!(files.fcntl(FD(0), F_GETFD, 0), Ok(FcntlReply::Value(1)));
    assert_eq!(files.fcntl(FD(0), F_DUPFD, 5), Ok(FcntlReply::Value(5)));
    assert_eq!(files.fcntl(FD(5), F_GETFD, 0), Ok(FcntlReply::Value(1)));
    assert_eq!(files.fcntl(FD(0), F_DUPFD_CLOEXEC, 0), Ok(FcntlReply::Value(1)));
    assert_eq!(files.fcntl(FD(0), F_GETFL, 0), Ok(FcntlReply::GetFileFlags(FileId(10))));
    assert_eq!(
        files.fcntl(FD(0), F_SETFL, O_NONBLOCK as usize),
        Ok(FcntlReply::SetFileFlags(FileId(10), O_NONBLOCK))
    );
    assert_eq!(files.fcntl(FD(3), F_GETFD, 0), Err(EBADF));
    // A closed descriptor is refused before the command is looked at.
    assert_eq!(files.fcntl(FD(3), 9999, 0), Err(EBADF));
}

#[test]
fn cloned_table_has_same_descriptors() {
    let mut files = FileArray::new();
    files.open(O_RDONLY, FileId(10)).unwrap();
    let copy = FileArray::new_cloned(&files);
    assert_eq!(copy.get(FD(0)), Some(FileId(10)));
    files.close_all();
    assert_eq!(files.get(FD(0)), None);
    assert_eq!(copy.get(FD(0)), Some(FileId(10)));
}

#[test]
fn access_modes() {
    assert_eq!(as_rwa(O_RDONLY), (true, false, false));
    assert_eq!(as_rwa(O_WRONLY), (false, true, false));
    assert_eq!(as_rwa(O_RDWR | O_APPEND), (true, true, true));
}

#[test]
fn signed_offsets() {
    assert_eq!(checked_add_signed(10, -3), Some(7));
    assert_eq!(checked_add_signed(10, -11), None);
    assert_eq!(checked_add_signed(usize::MAX, 1), None);
    assert_eq!(checked_add_signed(5, isize::MIN), None);
}

#[test]
fn inode_file_seek_and_positions() {
    let mut f = InodeFile::new(O_RDWR, Format::REG);
    assert_eq!(f.seek(SeekOption::Absolute(10), 100), Ok(10));
    assert_eq!(f.seek(SeekOption::Current(-20), 100), Err(EOVERFLOW));
    assert_eq!(f.seek(SeekOption::Current(5), 100), Ok(15));
    assert_eq!(f.seek(SeekOption::End(5), 100), Ok(105));
    assert_eq!(f.read_position(None), Ok(105));
    assert_eq!(f.read_position(Some(3)), Ok(3));
    f.read_done(None, 10);
    assert_eq!(f.read_position(None), Ok(115));
    assert_eq!(f.write_offset(None), Ok(WriteOffset::Position(115)));
    f.write_done(None, 5, 0);
    assert_eq!(f.read_position(None), Ok(120));
    assert_eq!(f.sendfile_check(), Ok(()));
}

#[test]
fn inode_file_access_checks() {
    let w = InodeFile::new(O_WRONLY, Format::REG);
    assert_eq!(w.read_position(None), Err(EBADF));
    let r = InodeFile::new(O_RDONLY, Format::DIR);
    assert_eq!(r.write_offset(None), Err(EBADF));
    assert_eq!(r.sendfile_check(), Err(EBADF));
    let mut a = InodeFile::new(O_WRONLY | O_APPEND, Format::REG);
    assert_eq!(a.write_offset(Some(4)), Ok(WriteOffset::End));
    a.write_done(None, 3, 42);
    a.seek(SeekOption::Current(0), 0).unwrap();
    assert_eq!(a.seek(SeekOption::Current(0), 0), Ok(42));
}

#[test]
fn file_operations_by_type() {
    let mut pipe = File::new(O_RDONLY, FileType::PipeRead);
    assert_eq!(pipe.seek(SeekOption::Absolute(0), 0), Err(ESPIPE));
    assert_eq!(pipe.getdents_check(), Err(ENOTDIR));
    assert_eq!(pipe.statx_check(), Err(EBADF));
    assert_eq!(pipe.ioctl_check(), Err(ENOTTY));
    assert_eq!(pipe.read_check(), Ok(()));
    assert_eq!(pipe.write_check(), Err(EBADF));
    let tty = File::new(O_RDWR, FileType::Terminal);
    assert_eq!(tty.ioctl_check(), Ok(()));
    let mut inode = File::new(O_RDWR, FileType::Inode(InodeFile::new(O_RDWR, Format::REG)));
    assert_eq!(inode.seek(SeekOption::Absolute(7), 0), Ok(7));
    assert_eq!(inode.getdents_check(), Ok(()));
}

#[test]
fn set_flags_keeps_only_status_flags() {
    let mut f = File::new(O_RDWR, FileType::Socket);
    f.set_flags(O_RDWR | O_CREAT | O_TRUNC | O_EXCL | O_NONBLOCK | O_APPEND);
    assert_eq!(f.get_flags(), O_NONBLOCK | O_APPEND);
}

#[test]
fn open_checks() {
    assert_eq!(open_check(true, O_CREAT | O_EXCL), Err(EEXIST));
    assert_eq!(open_check(true, O_CREAT), Ok(OpenCheck::Existing));
    assert_eq!(open_check(false, 0), Err(ENOENT));
    assert_eq!(open_check(false, O_CREAT), Ok(OpenCheck::Create));
}

#[test]
fn open_plans() {
    assert_eq!(open_plan(O_DIRECTORY, Format::REG), Err(ENOTDIR));
    assert_eq!(open_plan(O_WRONLY, Format::DIR), Err(EISDIR));
    assert_eq!(
        open_plan(O_WRONLY | O_TRUNC, Format::REG),
        Ok(OpenPlan { truncate: true, char_device: false })
    );
    assert_eq!(
        open_plan(O_RDONLY | O_TRUNC, Format::REG),
        Ok(OpenPlan { truncate: false, char_device: false })
    );
    assert_eq!(
        open_plan(O_RDWR, Format::CHR),
        Ok(OpenPlan { truncate: false, char_device: true })
    );
}

#[test]
fn pipe_end_flags() {
    assert_eq!(pipe_flags(O_RDWR | O_NONBLOCK), (O_NONBLOCK, O_NONBLOCK | O_WRONLY));
}

#[test]
fn terminal_requests() {
    assert_eq!(terminal_request(0x5401), Ok(TerminalRequest::GetTermios));
    assert_eq!(terminal_request(0x5413), Ok(TerminalRequest::GetWindowSize));
    assert_eq!(terminal_request(0x1234), Err(EINVAL));
}

#[test]
fn pipe_gives_back_bytes_in_order() {
    let mut p = PipeInner::new();
    assert_eq!(p.try_write(b"hello"), PipeWrite::Written(5));
    assert_eq!(p.try_write(b" world"), PipeWrite::Written(6));
    assert_eq!(p.try_read(3), Some(b"hel".to_vec()));
    assert_eq!(p.try_read(100), Some(b"lo world".to_vec()));
    assert_eq!(p.try_read(100), None);
}

#[test]
fn pipe_end_of_file_and_broken_pipe() {
    let mut p = PipeInner::new();
    p.try_write(b"ab");
    assert!(p.close_write());
    assert!(!p.close_write());
    assert_eq!(p.try_read(10), Some(b"ab".to_vec()));
    assert_eq!(p.try_read(10), Some(Vec::new()));
    assert!(p.close_read());
    assert_eq!(p.try_write(b"x"), PipeWrite::Broken);
    assert_eq!(pipe_write_error(true), eonix::errno::EPIPE);
    assert_eq!(pipe_write_error(false), eonix::errno::EINTR);
}

#[test]
fn pipe_write_waits_when_full() {
    let mut p = PipeInner::new();
    let big = vec![7u8; 4000];
    assert_eq!(p.try_write(&big), PipeWrite::Written(4000));
    assert_eq!(p.try_write(&[1u8; 100]), PipeWrite::Wait);
    assert_eq!(p.try_write(&[1u8; 96]), PipeWrite::Written(96));
}

#[test]
fn pipe_poll() {
    let mut p = PipeInner::new();
    let rd = PollEvent(POLL_READABLE);
    assert_eq!(p.poll(rd), None);
    p.try_write(b"z");
    assert_eq!(p.poll(rd), Some(PollEvent(POLL_READABLE)));
    p.close_write();
    assert_eq!(p.poll(rd), Some(PollEvent(POLL_READABLE | POLL_WRITABLE)));
    assert!(PollEvent(3).contains(PollEvent(1)));
    assert!(!PollEvent(1).contains(PollEvent(2)));
}

#[test]
fn terminal_writes_go_out_in_chunks() {
    assert_eq!(terminal_write_chunk(0), 0);
    assert_eq!(terminal_write_chunk(5), 5);
    assert_eq!(terminal_write_chunk(128), 128);
    assert_eq!(terminal_write_chunk(300), 128);
}
