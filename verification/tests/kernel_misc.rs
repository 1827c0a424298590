use eonix::dataflow::{
    copy_result, CheckedUserPointer, FillResult, UserBuffer, UserPointer, UserString,
    USER_MAX_ADDR,
};
use eonix::dirent::{fill_dirent, fill_dirent64};
use eonix::errno::{EADDRINUSE, EEXIST, EFAULT, EINTR, EINVAL, ENODEV, ENOTDIR};
use eonix::mount::{
    dump_mounts, mount_opts, mount_point_check, normalize_mount_flags, FilesystemTable,
    MountRecord, MS_NOATIME, MS_NODEV, MS_NOEXEC, MS_NOSUID, MS_RDONLY, MS_RELATIME,
};
use eonix::boot::{init_candidates, init_environment, pick_init, BOOT_MOUNT_FLAGS};
use eonix::net::{
    bind_all_result, dhcp_configure, register_netdev, relate_iface, RouteUpdate, IngressResult, LinkId, LinkSpeed, LinkState,
    LinkStatus, Mac, NetError, PollRound, PortTable, WorkerAction, IP_LOCAL_PORT_START,
    POLL_IN_MAX,
};
use eonix::sendfile::{Sendfile, SendfileStep};
use eonix::statx::{
    inode_statx, InodeInfo, StatX, SuperBlockInfo, STATX_BLOCKS, STATX_INO, STATX_MODE,
    STATX_NLINK, STATX_SIZE, STATX_TYPE,
};
use eonix::timer::{Instant, Ticks};
use eonix::types::{DeviceId, Format, Ino, Mode, Permission, S_IFCHR, S_IFDIR, S_IFREG};

#[test]
fn user_pointers_must_lie_in_user_space() {
    assert_eq!(CheckedUserPointer::new(0, 4).err(), Some(EFAULT));
    assert_eq!(CheckedUserPointer::new(usize::MAX, 2).err(), Some(EFAULT));
    assert_eq!(CheckedUserPointer::new(USER_MAX_ADDR as usize, 1).err(), Some(EFAULT));
    let p = CheckedUserPointer::new(0x1000, 16).unwrap();
    assert_eq!(p.get_const(), 0x1000);
    assert_eq!(p.check_copy(17), Err(EINVAL));
    assert_eq!(p.check_copy(16), Ok(()));
    let mut q = p;
    q.forward(4);
    assert_eq!(q.get_const(), 0x1004);
    assert_eq!(q.check_copy(13), Err(EINVAL));
}

#[test]
fn typed_user_pointer_offsets() {
    let p = UserPointer::new(0x1000, 8).unwrap();
    assert!(p.offset(2).is_ok());
    assert_eq!(p.offset(-1000).err(), Some(EFAULT));
    assert!(UserPointer::new_vaddr(0, 8).is_err());
}

#[test]
fn user_strings() {
    assert_eq!(UserString::new(0x1000, 4090).map(|s| s.len()), Ok(6));
    assert_eq!(UserString::new(0x1000, 0).map(|s| s.len()), Err(EFAULT));
    assert_eq!(UserString::new(0, 10).map(|s| s.len()), Err(EFAULT));
    assert_eq!(UserString::new(0x1000, 10).unwrap().get_const(), 0x1000);
    assert_eq!(copy_result(0), Ok(()));
    assert_eq!(copy_result(3), Err(EFAULT));
}

#[test]
fn user_buffer_fills_until_full() {
    let mut b = UserBuffer::new(0x1000, 10).unwrap();
    assert_eq!(b.total(), 10);
    let (n, addr) = b.fill_target(4);
    assert_eq!((n, addr), (4, 0x1000));
    assert_eq!(b.fill_done(4, n), FillResult::Done(4));
    assert_eq!(b.wrote(), 4);
    assert_eq!(b.remaining(), 6);
    let (n, addr) = b.fill_target(10);
    assert_eq!((n, addr), (6, 0x1004));
    assert_eq!(b.fill_done(10, n), FillResult::Partial(6));
    assert_eq!(b.remaining(), 0);
}

#[test]
fn dirent64_records() {
    let mut out = Vec::new();
    assert!(fill_dirent64(&mut out, 64, b"ab", 0x0102030405060708));
    assert_eq!(out.len(), 22);
    assert_eq!(&out[0..8], &[8, 7, 6, 5, 4, 3, 2, 1]);
    assert_eq!(&out[8..16], &[0; 8]);
    assert_eq!(&out[16..18], &[22, 0]);
    assert_eq!(out[18], 0);
    assert_eq!(&out[19..22], b"ab\0");
    assert!(!fill_dirent64(&mut out, 64, b"this-name-is-too-long-for-the-rest", 1));
    assert_eq!(out.len(), 22);
}

#[test]
fn dirent_records() {
    let mut out = Vec::new();
    assert!(fill_dirent(&mut out, 20, b"abc", 0x1_0000_0002));
    assert_eq!(out, vec![2, 0, 0, 0, 0, 0, 0, 0, 15, 0, b'a', b'b', b'c', 0, 0]);
    assert!(!fill_dirent(&mut out, 20, b"x", 1));
    assert!(fill_dirent(&mut out, 28, b"x", 1));
    assert_eq!(out.len(), 28);
}

fn instant(ms: usize) -> Instant {
    Instant::from_ticks(Ticks(ms))
}

#[test]
fn statx_reports_what_is_asked() {
    let info = InodeInfo {
        size: 1000,
        nlink: 2,
        uid: 7,
        gid: 8,
        perm: Permission::new(0o644),
        atime: instant(1),
        ctime: instant(2),
        mtime: instant(3),
    };
    let sb = SuperBlockInfo { io_blksize: 4096, device_id: DeviceId::new(8, 1), read_only: false };
    let mut st = StatX {
        stx_mask: 0,
        stx_blksize: 0,
        stx_attributes: 0,
        stx_nlink: 0,
        stx_uid: 0,
        stx_gid: 0,
        stx_mode: 0o777,
        stx_ino: 0,
        stx_size: 0,
        stx_blocks: 0,
        stx_attributes_mask: 5,
        stx_atime: instant(0),
        stx_btime: instant(0),
        stx_ctime: instant(0),
        stx_mtime: instant(0),
        stx_rdev_major: 0,
        stx_rdev_minor: 0,
        stx_dev_major: 0,
        stx_dev_minor: 0,
    };
    let mask = STATX_MODE | STATX_TYPE | STATX_SIZE | STATX_BLOCKS | STATX_INO;
    assert_eq!(inode_statx(&info, Format::REG, Ino::new(42), Err(EINVAL), &sb, &mut st, mask), Ok(()));
    assert_eq!(st.stx_mask, mask);
    assert_eq!(st.stx_mode as u32, S_IFREG | 0o644);
    assert_eq!(st.stx_size, 1000);
    assert_eq!(st.stx_blocks, 2);
    assert_eq!(st.stx_blksize, 4096);
    assert_eq!(st.stx_ino, 42);
    assert_eq!(st.stx_nlink, 0);
    assert_eq!((st.stx_dev_major, st.stx_dev_minor), (8, 1));
    assert_eq!(st.stx_attributes_mask, 0);

    let mut dev = st;
    dev.stx_mask = 0;
    assert_eq!(
        inode_statx(&info, Format::CHR, Ino::new(1), Ok(DeviceId::new(4, 64)), &sb, &mut dev, STATX_TYPE | STATX_NLINK),
        Ok(())
    );
    assert_eq!((dev.stx_rdev_major, dev.stx_rdev_minor), (4, 64));
    assert_eq!(dev.stx_mode as u32, S_IFCHR);
    assert_eq!(dev.stx_nlink, 2);
    assert_eq!(dev.stx_mask, STATX_TYPE | STATX_NLINK);

    let mut bad = st;
    bad.stx_mask = 0;
    assert_eq!(
        inode_statx(&info, Format::BLK, Ino::new(1), Err(EINVAL), &sb, &mut bad, STATX_TYPE | STATX_NLINK),
        Err(EINVAL)
    );
    assert_eq!(bad.stx_mask, STATX_NLINK);
}

#[test]
fn mode_bits() {
    let m = Mode::new(S_IFDIR | 0o755);
    assert_eq!(m.format(), Format::DIR);
    assert_eq!(m.perm().bits(), 0o755);
    assert_eq!(m.non_format_bits(), 0o755);
    let mut m2 = m;
    m2.set_perm(Permission::new(0o700));
    assert_eq!(m2.bits(), S_IFDIR | 0o700);
    assert_eq!(Permission::new(0o17777).bits(), 0o7777);
    assert_eq!(Permission::new(0o755).mask_with(Permission::new(0o022)).bits(), 0o000);
    assert_eq!(Format::CHR.as_raw(), S_IFCHR);
    assert!(Mode::new(S_IFCHR).is_chr());
}

#[test]
fn device_numbers_round_trip() {
    let d = DeviceId::new(8, 17);
    let raw = d.to_raw();
    assert_eq!(raw, (8 << 16) | 17);
    assert_eq!(DeviceId::from_raw(raw), d);
    assert_eq!(Ino::new(9).as_raw(), 9);
}

#[test]
fn mount_flags_and_options() {
    assert_eq!(mount_point_check(false), Err(ENOTDIR));
    assert_eq!(mount_point_check(true), Ok(()));
    assert_eq!(normalize_mount_flags(MS_RDONLY), MS_RDONLY | MS_RELATIME);
    assert_eq!(normalize_mount_flags(MS_NOATIME), MS_NOATIME);
    assert_eq!(mount_opts(MS_RDONLY | MS_NOSUID | MS_NODEV | MS_NOEXEC | MS_NOATIME), b"ro,nosuid,nodev,noexec,noatime".to_vec());
    assert_eq!(mount_opts(0), b"rw".to_vec());
}

#[test]
fn filesystem_table() {
    let mut t = FilesystemTable::new();
    assert_eq!(t.register_filesystem(b"tmpfs"), Ok(()));
    assert_eq!(t.register_filesystem(b"fat32"), Ok(()));
    assert_eq!(t.register_filesystem(b"tmpfs"), Err(EEXIST));
    assert_eq!(t.find(b"fat32"), Ok(1));
    assert_eq!(t.find(b"ext4"), Err(ENODEV));
}

#[test]
fn mount_table_text() {
    let recs = vec![MountRecord {
        source: b"none".to_vec(),
        mountpoint: b"/".to_vec(),
        fstype: b"tmpfs".to_vec(),
        flags: MS_RDONLY,
    }];
    assert_eq!(dump_mounts(&recs), b"none / tmpfs ro 0 0\n".to_vec());
}

#[test]
fn ports_are_handed_out_lowest_first() {
    let mut t = PortTable::new();
    assert_eq!(t.bind_port(0), Ok(IP_LOCAL_PORT_START));
    assert_eq!(t.bind_port(0), Ok(IP_LOCAL_PORT_START + 1));
    assert_eq!(t.bind_port(IP_LOCAL_PORT_START), Err(EADDRINUSE));
    assert_eq!(t.bind_port(80), Ok(80));
    assert!(!t.is_used(80));
    t.release_port(IP_LOCAL_PORT_START);
    assert_eq!(t.alloc_port(), Some(IP_LOCAL_PORT_START));
    assert_eq!(bind_all_result(0), Err(EADDRINUSE));
    assert_eq!(bind_all_result(2), Ok(()));
}

#[test]
fn links() {
    let mut next = 0usize;
    let a = LinkId::new(&mut next);
    let b = LinkId::new(&mut next);
    assert_eq!((a, b, next), (LinkId(0), LinkId(1), 2));
    let mut devs = Vec::new();
    assert_eq!(register_netdev(&mut devs, a), Ok(()));
    assert_eq!(register_netdev(&mut devs, a), Err(NetError::AlreadyRegistered));
    assert_eq!(devs, vec![a]);
    let s = LinkState::new();
    assert_eq!(s.status, LinkStatus::Down);
    assert_eq!(s.speed, LinkSpeed::SpeedUnknown);
    assert_eq!(s.mac, Mac::zeros());
    assert_eq!(Mac::new([1, 2, 3, 4, 5, 6]).as_bytes(), &[1, 2, 3, 4, 5, 6]);
    let mut last = usize::MAX;
    assert_eq!(LinkId::new(&mut last), LinkId(usize::MAX));
    assert_eq!(last, 0);
}

#[test]
fn sendfile_goes_chunk_by_chunk() {
    let mut s = Sendfile::new(10000, 4096);
    assert_eq!(s.next(false), SendfileStep::Read { len: 4096 });
    assert_eq!(s.after_read(4096), SendfileStep::Write { len: 4096 });
    assert_eq!(s.after_write(4096), None);
    assert_eq!(s.next(false), SendfileStep::Read { len: 4096 });
    s.after_read(4096);
    assert_eq!(s.after_write(4096), None);
    assert_eq!(s.next(false), SendfileStep::Read { len: 1808 });
    s.after_read(1808);
    assert_eq!(s.after_write(1808), None);
    assert_eq!(s.next(false), SendfileStep::Done(Ok(10000)));
}

#[test]
fn sendfile_stops_early() {
    let mut s = Sendfile::new(10000, 4096);
    assert_eq!(s.next(true), SendfileStep::Done(Err(EINTR)));
    s.next(false);
    s.after_read(4096);
    s.after_write(4096);
    assert_eq!(s.next(true), SendfileStep::Done(Ok(4096)));
    s.next(false);
    assert_eq!(s.after_read(0), SendfileStep::Done(Ok(4096)));
    let mut t = Sendfile::new(100, 4096);
    t.next(false);
    t.after_read(100);
    assert_eq!(t.after_write(60), Some(Ok(60)));
}

#[test]
fn first_user_program() {
    assert_eq!(init_candidates(), vec!["/init", "/sbin/init", "/mnt/initsh"]);
    assert_eq!(init_environment(), vec!["LANG=C", "HOME=/root", "PATH=/mnt", "PWD=/"]);
    assert_eq!(pick_init(&[false, true, true]), Some(1));
    assert_eq!(pick_init(&[true, false, false]), Some(0));
    assert_eq!(pick_init(&[false, false, false]), None);
    assert_eq!(BOOT_MOUNT_FLAGS, MS_RDONLY | MS_NOATIME | MS_NODEV | MS_NOSUID);
    assert_eq!(BOOT_MOUNT_FLAGS, 1031);
}

#[test]
fn interface_of_an_address() {
    let addrs = vec![vec![0x7f00_0001u32], vec![0x0a00_020f, 0x0a00_0210], vec![0x0a00_0210]];
    assert_eq!(relate_iface(&addrs, 0x7f00_0001), Some(0));
    assert_eq!(relate_iface(&addrs, 0x0a00_0210), Some(1));
    assert_eq!(relate_iface(&addrs, 0x0a00_0211), None);
    assert_eq!(relate_iface(&vec![], 0x7f00_0001), None);
}

#[test]
fn network_worker_rounds() {
    // Packets until none waits; nothing changed: sleep as the interface asks.
    let mut round = PollRound::new();
    assert!(round.record_ingress(IngressResult::PacketProcessed));
    assert!(!round.record_ingress(IngressResult::Nothing));
    round.record_egress(false);
    assert_eq!(round.next_action(Some(250)), WorkerAction::Sleep(250));
    assert_eq!(round.next_action(None), WorkerAction::PollAgain);

    // A socket changed state on the way in.
    let mut round = PollRound::new();
    assert!(round.record_ingress(IngressResult::SocketStateChanged));
    assert!(!round.record_ingress(IngressResult::Nothing));
    assert_eq!(round.next_action(Some(250)), WorkerAction::ServiceSockets);

    // Or on the way out.
    let mut round = PollRound::new();
    assert!(!round.record_ingress(IngressResult::Nothing));
    round.record_egress(true);
    assert_eq!(round.next_action(None), WorkerAction::ServiceSockets);

    // At most POLL_IN_MAX packets in one round.
    let mut round = PollRound::new();
    let mut polls = 0;
    while round.record_ingress(IngressResult::PacketProcessed) {
        polls += 1;
    }
    assert_eq!(polls + 1, POLL_IN_MAX);
}

#[test]
fn dhcp_leases_configure_the_interface() {
    let (addrs, route) = dhcp_configure(0x0a00_020f, 24, Some(0x0a00_0202));
    assert_eq!(addrs, vec![(0x0a00_020f, 24)]);
    assert_eq!(route, RouteUpdate::SetDefault(0x0a00_0202));
    let (_, route) = dhcp_configure(0x0a00_020f, 24, None);
    assert_eq!(route, RouteUpdate::RemoveDefault);
}

#[test]
fn inode_numbers_are_ordered_as_numbers() {
    assert!(Ino::new(3) < Ino::new(7));
    assert!(Ino::new(7) > Ino::new(3));
    assert!(Ino::new(5) <= Ino::new(5));
    assert_eq!(Ino::new(9).partial_cmp(&Ino::new(9)), Some(std::cmp::Ordering::Equal));
    assert_eq!(Ino::new(u64::MAX).as_raw(), u64::MAX);
}
