//! What the kernel settles on when it starts the first user program: how
//! the boot disk is mounted, which program becomes `init`, and the
//! environment it gets.

use vstd::prelude::*;

use crate::mount::{MS_NOATIME, MS_NODEV, MS_NOSUID, MS_RDONLY};

verus! {

/// The boot disk is mounted on `/mnt` read-only, without access times,
/// device files or set-user-id programs.
pub const BOOT_MOUNT_FLAGS: u64 = MS_RDONLY | MS_NOATIME | MS_NODEV | MS_NOSUID;

/// The programs tried as `init`, in the order they are tried.
pub fn init_candidates() -> (r: Vec<&'static str>)
    ensures
        r@.len() == 3,
        r@[0]@ == "/init"@,
        r@[1]@ == "/sbin/init"@,
        r@[2]@ == "/mnt/initsh"@,
{
    let mut v: Vec<&'static str> = Vec::new();
    v.push("/init");
    v.push("/sbin/init");
    v.push("/mnt/initsh");
    v
}

/// The environment `init` starts with.
pub fn init_environment() -> (r: Vec<&'static str>)
    ensures
        r@.len() == 4,
        r@[0]@ == "LANG=C"@,
        r@[1]@ == "HOME=/root"@,
        r@[2]@ == "PATH=/mnt"@,
        r@[3]@ == "PWD=/"@,
{
    let mut v: Vec<&'static str> = Vec::new();
    v.push("LANG=C");
    v.push("HOME=/root");
    v.push("PATH=/mnt");
    v.push("PWD=/");
    v
}

/// The candidate that becomes `init`: the first one found as a valid file
/// (`found[i]` for candidate `i`); none when no candidate was found, from
/// which the kernel cannot go on.
pub fn pick_init(found: &[bool]) -> (r: Option<usize>)
    ensures
        match r {
            Some(i) => i < found@.len() && found@[i as int] && forall|j: int|
                0 <= j < i ==> !#[trigger] found@[j],
            None => forall|j: int| 0 <= j < found@.len() ==> !#[trigger] found@[j],
        },
{
    let mut i: usize = 0;
    while i < found.len()
        invariant
            i <= found@.len(),
            forall|j: int| 0 <= j < i ==> !#[trigger] found@[j],
        decreases found@.len() - i,
    {
        if found[i] {
            return Some(i);
        }
        i = i + 1;
    }
    None
}

} // verus!
