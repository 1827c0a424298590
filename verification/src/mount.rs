//! Mount flags, the table of file system types and the text of the mount
//! table.

use vstd::prelude::*;

use crate::errno::{KResult, EEXIST, ENODEV, ENOTDIR};

verus! {

pub const MS_RDONLY: u64 = 1;
pub const MS_NOSUID: u64 = 2;
pub const MS_NODEV: u64 = 4;
pub const MS_NOEXEC: u64 = 8;
pub const MS_NOATIME: u64 = 1024;
pub const MS_RELATIME: u64 = 2097152;
pub const MS_STRICTATIME: u64 = 16777216;
pub const MS_LAZYTIME: u64 = 33554432;

/// The flags a mount is recorded with: `relatime` unless `noatime` is
/// asked for, and neither when `strictatime` is.
pub open spec fn normalized_flags(flags: u64) -> u64 {
    let f = if flags & MS_NOATIME == 0 {
        flags | MS_RELATIME
    } else {
        flags
    };
    if f & MS_STRICTATIME != 0 {
        f & !(MS_RELATIME | MS_NOATIME)
    } else {
        f
    }
}

pub fn normalize_mount_flags(flags: u64) -> (r: u64)
    ensures
        r == normalized_flags(flags),
{
    let mut f = flags;
    if f & MS_NOATIME == 0 {
        f = f | MS_RELATIME;
    }
    if f & MS_STRICTATIME != 0 {
        f = f & !(MS_RELATIME | MS_NOATIME);
    }
    f
}

/// Mounting on something that is not a directory is `ENOTDIR`.
pub fn mount_point_check(is_directory: bool) -> (r: KResult<()>)
    ensures
        r == (if is_directory {
            Ok::<(), u32>(())
        } else {
            Err::<(), u32>(ENOTDIR)
        }),
{
    if is_directory {
        Ok(())
    } else {
        Err(ENOTDIR)
    }
}

/// `s` if the flag is set, nothing otherwise.
pub open spec fn opt(flags: u64, flag: u64, s: Seq<u8>) -> Seq<u8> {
    if flags & flag != 0 {
        s
    } else {
        Seq::<u8>::empty()
    }
}

pub open spec fn text_ro() -> Seq<u8> {
    seq![114u8, 111u8]
}

pub open spec fn text_rw() -> Seq<u8> {
    seq![114u8, 119u8]
}

pub open spec fn text_nosuid() -> Seq<u8> {
    seq![44u8, 110u8, 111u8, 115u8, 117u8, 105u8, 100u8]
}

pub open spec fn text_nodev() -> Seq<u8> {
    seq![44u8, 110u8, 111u8, 100u8, 101u8, 118u8]
}

pub open spec fn text_noexec() -> Seq<u8> {
    seq![44u8, 110u8, 111u8, 101u8, 120u8, 101u8, 99u8]
}

pub open spec fn text_noatime() -> Seq<u8> {
    seq![44u8, 110u8, 111u8, 97u8, 116u8, 105u8, 109u8, 101u8]
}

pub open spec fn text_relatime() -> Seq<u8> {
    seq![44u8, 114u8, 101u8, 108u8, 97u8, 116u8, 105u8, 109u8, 101u8]
}

pub open spec fn text_lazytime() -> Seq<u8> {
    seq![44u8, 108u8, 97u8, 122u8, 121u8, 116u8, 105u8, 109u8, 101u8]
}

/// The options column of the mount table: `ro` or `rw`, then each of
/// `nosuid`, `nodev`, `noexec`, `noatime`, `relatime`, `lazytime` that is
/// set, each after a comma.
pub open spec fn mount_opts_text(flags: u64) -> Seq<u8> {
    (if flags & MS_RDONLY != 0 {
        text_ro()
    } else {
        text_rw()
    }) + opt(flags, MS_NOSUID, text_nosuid()) + opt(flags, MS_NODEV, text_nodev()) + opt(
        flags,
        MS_NOEXEC,
        text_noexec(),
    ) + opt(flags, MS_NOATIME, text_noatime()) + opt(flags, MS_RELATIME, text_relatime()) + opt(
        flags,
        MS_LAZYTIME,
        text_lazytime(),
    )
}

/// `pat` occurs in `s`.
pub open spec fn contains_bytes(s: Seq<u8>, pat: Seq<u8>) -> bool {
    exists|i: int| 0 <= i && i + pat.len() <= s.len() && #[trigger] s.subrange(i, i + pat.len()) == pat
}

proof fn lemma_contains_at_end(x: Seq<u8>, p: Seq<u8>)
    ensures
        contains_bytes(x + p, p),
{
    let i = x.len() as int;
    assert((x + p).subrange(i, i + p.len()) =~= p);
}

proof fn lemma_contains_extend(s: Seq<u8>, y: Seq<u8>, p: Seq<u8>)
    requires
        contains_bytes(s, p),
    ensures
        contains_bytes(s + y, p),
{
    let i = choose|i: int| 0 <= i && i + p.len() <= s.len() && #[trigger] s.subrange(i, i + p.len()) == p;
    assert((s + y).subrange(i, i + p.len()) =~= s.subrange(i, i + p.len()));
}

/// The options column of the mount table starts with `ro` for a read-only
/// mount (flag 1) and `rw` otherwise, and lists `,nosuid`, `,nodev`,
/// `,noexec`, `,noatime`, `,relatime` and `,lazytime` for each of those
/// flags (2, 4, 8, 1024, 2097152, 33554432) that is set.
pub proof fn law_mount_options_list_set_flags(flags: u64)
    ensures
        flags & 1 != 0 ==> mount_opts_text(flags).subrange(0, 2) == seq![114u8, 111u8],
        flags & 1 == 0 ==> mount_opts_text(flags).subrange(0, 2) == seq![114u8, 119u8],
        flags & 2 != 0 ==> contains_bytes(
            mount_opts_text(flags),
            seq![44u8, 110u8, 111u8, 115u8, 117u8, 105u8, 100u8],
        ),
        flags & 4 != 0 ==> contains_bytes(
            mount_opts_text(flags),
            seq![44u8, 110u8, 111u8, 100u8, 101u8, 118u8],
        ),
        flags & 8 != 0 ==> contains_bytes(
            mount_opts_text(flags),
            seq![44u8, 110u8, 111u8, 101u8, 120u8, 101u8, 99u8],
        ),
        flags & 1024 != 0 ==> contains_bytes(
            mount_opts_text(flags),
            seq![44u8, 110u8, 111u8, 97u8, 116u8, 105u8, 109u8, 101u8],
        ),
        flags & 2097152 != 0 ==> contains_bytes(
            mount_opts_text(flags),
            seq![44u8, 114u8, 101u8, 108u8, 97u8, 116u8, 105u8, 109u8, 101u8],
        ),
        flags & 33554432 != 0 ==> contains_bytes(
            mount_opts_text(flags),
            seq![44u8, 108u8, 97u8, 122u8, 121u8, 116u8, 105u8, 109u8, 101u8],
        ),
{
    lemma_options_head(flags);
    lemma_options_flag(flags, 1);
    lemma_options_flag(flags, 2);
    lemma_options_flag(flags, 3);
    lemma_options_flag(flags, 4);
    lemma_options_flag(flags, 5);
    lemma_options_flag(flags, 6);
}

/// The options text as its seven parts: the `ro`/`rw` head and the six
/// optional flag texts.
spec fn option_parts(flags: u64) -> Seq<Seq<u8>> {
    seq![
        if flags & MS_RDONLY != 0 {
            text_ro()
        } else {
            text_rw()
        },
        opt(flags, MS_NOSUID, text_nosuid()),
        opt(flags, MS_NODEV, text_nodev()),
        opt(flags, MS_NOEXEC, text_noexec()),
        opt(flags, MS_NOATIME, text_noatime()),
        opt(flags, MS_RELATIME, text_relatime()),
        opt(flags, MS_LAZYTIME, text_lazytime()),
    ]
}

/// The first `n` parts, one after the other.
spec fn joined(parts: Seq<Seq<u8>>, n: nat) -> Seq<u8>
    decreases n,
{
    if n == 0 {
        Seq::<u8>::empty()
    } else {
        joined(parts, (n - 1) as nat) + parts[n - 1]
    }
}

proof fn lemma_text_is_joined(flags: u64)
    ensures
        mount_opts_text(flags) == joined(option_parts(flags), 7),
{
    let parts = option_parts(flags);
    assert(joined(parts, 0) == Seq::<u8>::empty());
    assert(joined(parts, 1) =~= parts[0]);
    assert(joined(parts, 2) == joined(parts, 1) + parts[1]);
    assert(joined(parts, 3) == joined(parts, 2) + parts[2]);
    assert(joined(parts, 4) == joined(parts, 3) + parts[3]);
    assert(joined(parts, 5) == joined(parts, 4) + parts[4]);
    assert(joined(parts, 6) == joined(parts, 5) + parts[5]);
    assert(joined(parts, 7) == joined(parts, 6) + parts[6]);
}

/// A part that is joined stays in the text as more parts are joined.
proof fn lemma_part_stays(parts: Seq<Seq<u8>>, k: nat, n: nat)
    requires
        0 < k <= n,
        k <= parts.len(),
        n <= parts.len(),
    ensures
        contains_bytes(joined(parts, n), parts[k - 1]),
    decreases n,
{
    if n == k {
        lemma_contains_at_end(joined(parts, (k - 1) as nat), parts[k - 1]);
    } else {
        lemma_part_stays(parts, k, (n - 1) as nat);
        lemma_contains_extend(joined(parts, (n - 1) as nat), parts[n - 1], parts[k - 1]);
    }
}

proof fn lemma_options_head(flags: u64)
    ensures
        flags & 1 != 0 ==> mount_opts_text(flags).subrange(0, 2) == seq![114u8, 111u8],
        flags & 1 == 0 ==> mount_opts_text(flags).subrange(0, 2) == seq![114u8, 119u8],
{
    let parts = option_parts(flags);
    lemma_text_is_joined(flags);
    lemma_joined_prefix(parts, 7);
    assert(parts[0].len() == 2);
    assert(mount_opts_text(flags).subrange(0, 2) =~= parts[0]);
}

/// The text begins with the first part.
proof fn lemma_joined_prefix(parts: Seq<Seq<u8>>, n: nat)
    requires
        0 < n <= parts.len(),
    ensures
        joined(parts, n).len() >= parts[0].len(),
        joined(parts, n).subrange(0, parts[0].len() as int) == parts[0],
    decreases n,
{
    if n == 1 {
        assert(joined(parts, 0) == Seq::<u8>::empty());
        assert(joined(parts, 1) =~= parts[0]);
    } else {
        lemma_joined_prefix(parts, (n - 1) as nat);
        let j = joined(parts, (n - 1) as nat);
        assert((j + parts[n - 1]).subrange(0, parts[0].len() as int) =~= j.subrange(0, parts[0].len() as int));
    }
}

/// Flag text `k` (1 to 6) is in the text when its flag is set.
proof fn lemma_options_flag(flags: u64, k: nat)
    requires
        1 <= k <= 6,
    ensures
        k == 1 && flags & 2 != 0 ==> contains_bytes(
            mount_opts_text(flags),
            seq![44u8, 110u8, 111u8, 115u8, 117u8, 105u8, 100u8],
        ),
        k == 2 && flags & 4 != 0 ==> contains_bytes(
            mount_opts_text(flags),
            seq![44u8, 110u8, 111u8, 100u8, 101u8, 118u8],
        ),
        k == 3 && flags & 8 != 0 ==> contains_bytes(
            mount_opts_text(flags),
            seq![44u8, 110u8, 111u8, 101u8, 120u8, 101u8, 99u8],
        ),
        k == 4 && flags & 1024 != 0 ==> contains_bytes(
            mount_opts_text(flags),
            seq![44u8, 110u8, 111u8, 97u8, 116u8, 105u8, 109u8, 101u8],
        ),
        k == 5 && flags & 2097152 != 0 ==> contains_bytes(
            mount_opts_text(flags),
            seq![44u8, 114u8, 101u8, 108u8, 97u8, 116u8, 105u8, 109u8, 101u8],
        ),
        k == 6 && flags & 33554432 != 0 ==> contains_bytes(
            mount_opts_text(flags),
            seq![44u8, 108u8, 97u8, 122u8, 121u8, 116u8, 105u8, 109u8, 101u8],
        ),
{
    let parts = option_parts(flags);
    lemma_text_is_joined(flags);
    lemma_part_stays(parts, k + 1, 7);
}

/// Append `s` to `out`.
pub fn append_bytes(out: &mut Vec<u8>, s: &[u8])
    ensures
        final(out)@ == old(out)@ + s@,
{
    let mut i: usize = 0;
    let ghost base = out@;
    while i < s.len()
        invariant
            i <= s@.len(),
            out@ == base + s@.take(i as int),
        decreases s@.len() - i,
    {
        out.push(s[i]);
        assert(s@.take(i + 1) =~= s@.take(i as int).push(s@[i as int]));
        i = i + 1;
    }
    assert(s@.take(s@.len() as int) =~= s@);
}

fn append_opt(out: &mut Vec<u8>, flags: u64, flag: u64, s: &[u8])
    ensures
        final(out)@ == old(out)@ + opt(flags, flag, s@),
{
    if flags & flag != 0 {
        append_bytes(out, s);
    } else {
        assert(old(out)@ + Seq::<u8>::empty() =~= old(out)@);
    }
}

/// The options column of the mount table for `flags`.
pub fn mount_opts(flags: u64) -> (r: Vec<u8>)
    ensures
        r@ == mount_opts_text(flags),
{
    let mut out: Vec<u8> = Vec::new();
    if flags & MS_RDONLY != 0 {
        let t = [114u8, 111u8];
        append_bytes(&mut out, &t);
        assert(t@ =~= text_ro());
    } else {
        let t = [114u8, 119u8];
        append_bytes(&mut out, &t);
        assert(t@ =~= text_rw());
    }
    let t1 = [44u8, 110u8, 111u8, 115u8, 117u8, 105u8, 100u8];
    append_opt(&mut out, flags, MS_NOSUID, &t1);
    let t2 = [44u8, 110u8, 111u8, 100u8, 101u8, 118u8];
    append_opt(&mut out, flags, MS_NODEV, &t2);
    let t3 = [44u8, 110u8, 111u8, 101u8, 120u8, 101u8, 99u8];
    append_opt(&mut out, flags, MS_NOEXEC, &t3);
    let t4 = [44u8, 110u8, 111u8, 97u8, 116u8, 105u8, 109u8, 101u8];
    append_opt(&mut out, flags, MS_NOATIME, &t4);
    let t5 = [44u8, 114u8, 101u8, 108u8, 97u8, 116u8, 105u8, 109u8, 101u8];
    append_opt(&mut out, flags, MS_RELATIME, &t5);
    let t6 = [44u8, 108u8, 97u8, 122u8, 121u8, 116u8, 105u8, 109u8, 101u8];
    append_opt(&mut out, flags, MS_LAZYTIME, &t6);
    assert(t1@ =~= text_nosuid());
    assert(t2@ =~= text_nodev());
    assert(t3@ =~= text_noexec());
    assert(t4@ =~= text_noatime());
    assert(t5@ =~= text_relatime());
    assert(t6@ =~= text_lazytime());
    assert(out@ =~= mount_opts_text(flags));
    out
}

/// One mounted file system as the mount table lists it.
pub struct MountRecord {
    pub source: Vec<u8>,
    pub mountpoint: Vec<u8>,
    pub fstype: Vec<u8>,
    pub flags: u64,
}

/// The line of the mount table for one mount:
/// `source mountpoint fstype options 0 0` and a newline.
pub open spec fn mount_line(source: Seq<u8>, mountpoint: Seq<u8>, fstype: Seq<u8>, flags: u64) -> Seq<
    u8,
> {
    source + seq![32u8] + mountpoint + seq![32u8] + fstype + seq![32u8] + mount_opts_text(flags)
        + seq![32u8, 48u8, 32u8, 48u8, 10u8]
}

/// The whole mount table: one line per mount, in mount order.
pub open spec fn mount_table_text(records: Seq<MountRecord>) -> Seq<u8>
    decreases records.len(),
{
    if records.len() == 0 {
        Seq::<u8>::empty()
    } else {
        let r = records.last();
        mount_table_text(records.drop_last()) + mount_line(
            r.source@,
            r.mountpoint@,
            r.fstype@,
            r.flags,
        )
    }
}

/// The text of the mount table, as `/proc/mounts` shows it.
pub fn dump_mounts(records: &Vec<MountRecord>) -> (r: Vec<u8>)
    ensures
        r@ == mount_table_text(records@),
{
    let mut out: Vec<u8> = Vec::new();
    let mut i: usize = 0;
    while i < records.len()
        invariant
            i <= records@.len(),
            out@ == mount_table_text(records@.take(i as int)),
        decreases records@.len() - i,
    {
        let rec = &records[i];
        let ghost before = out@;
        let sp = [32u8];
        append_bytes(&mut out, rec.source.as_slice());
        append_bytes(&mut out, &sp);
        append_bytes(&mut out, rec.mountpoint.as_slice());
        append_bytes(&mut out, &sp);
        append_bytes(&mut out, rec.fstype.as_slice());
        append_bytes(&mut out, &sp);
        let opts = mount_opts(rec.flags);
        append_bytes(&mut out, opts.as_slice());
        let tail = [32u8, 48u8, 32u8, 48u8, 10u8];
        append_bytes(&mut out, &tail);
        proof {
            assert(records@.take(i + 1).drop_last() =~= records@.take(i as int));
            assert(records@.take(i + 1).last() == records@[i as int]);
            assert(sp@ =~= seq![32u8]);
            assert(tail@ =~= seq![32u8, 48u8, 32u8, 48u8, 10u8]);
            assert(out@ =~= before + mount_line(rec.source@, rec.mountpoint@, rec.fstype@, rec.flags));
        }
        i = i + 1;
    }
    assert(records@.take(records@.len() as int) =~= records@);
    out
}

/// The names of the registered file system types.
pub struct FilesystemTable {
    names: Vec<Vec<u8>>,
}

impl FilesystemTable {
    pub closed spec fn names(&self) -> Seq<Seq<u8>> {
        self.names@.map_values(|v: Vec<u8>| v@)
    }

    pub fn new() -> (r: Self)
        ensures
            r.names() == Seq::<Seq<u8>>::empty(),
    {
        let r = FilesystemTable { names: Vec::new() };
        assert(r.names() =~= Seq::<Seq<u8>>::empty());
        r
    }

    fn position(&self, name: &[u8]) -> (r: Option<usize>)
        ensures
            match r {
                Some(i) => i < self.names().len() && self.names()[i as int] == name@,
                None => !self.names().contains(name@),
            },
    {
        let mut i: usize = 0;
        while i < self.names.len()
            invariant
                i <= self.names@.len(),
                forall|j: int| 0 <= j < i ==> #[trigger] self.names@[j]@ != name@,
            decreases self.names@.len() - i,
        {
            if bytes_eq(self.names[i].as_slice(), name) {
                return Some(i);
            }
            i = i + 1;
        }
        proof {
            if self.names().contains(name@) {
                let j = choose|j: int| 0 <= j < self.names().len() && self.names()[j] == name@;
                assert(self.names@[j]@ == name@);
            }
        }
        None
    }

    /// Register a file system type; `EEXIST` when the name is taken.
    pub fn register_filesystem(&mut self, fstype: &[u8]) -> (r: KResult<()>)
        ensures
            old(self).names().contains(fstype@) ==> r == Err::<(), u32>(EEXIST) && final(self).names() == old(self).names(),
            !old(self).names().contains(fstype@) ==> r is Ok && final(self).names() == old(self).names().push(fstype@),
    {
        match self.position(fstype) {
            Some(_) => Err(EEXIST),
            None => {
                let mut v: Vec<u8> = Vec::new();
                append_bytes(&mut v, fstype);
                self.names.push(v);
                assert(self.names() =~= old(self).names().push(fstype@));
                Ok(())
            },
        }
    }

    /// The index of a registered type; `ENODEV` when unknown.
    pub fn find(&self, fstype: &[u8]) -> (r: KResult<usize>)
        ensures
            match r {
                Ok(i) => i < self.names().len() && self.names()[i as int] == fstype@,
                Err(e) => e == ENODEV && !self.names().contains(fstype@),
            },
    {
        match self.position(fstype) {
            Some(i) => Ok(i),
            None => Err(ENODEV),
        }
    }
}

/// Byte strings are equal.
pub fn bytes_eq(a: &[u8], b: &[u8]) -> (r: bool)
    ensures
        r == (a@ == b@),
{
    if a.len() != b.len() {
        return false;
    }
    let mut i: usize = 0;
    while i < a.len()
        invariant
            a@.len() == b@.len(),
            i <= a@.len(),
            forall|j: int| 0 <= j < i ==> a@[j] == b@[j],
        decreases a@.len() - i,
    {
        if a[i] != b[i] {
            return false;
        }
        i = i + 1;
    }
    assert(a@ =~= b@);
    true
}

} // verus!
