//! Verified core logic of the Eonix kernel: file descriptor tables, path
//! walking, signal delivery, wait queues, pipes, timers and program loading.

pub mod boot;
pub mod dataflow;
pub mod dcache;
pub mod dentry;
pub mod dirent;
pub mod elf;
pub mod errno;
pub mod file;
pub mod filearray;
pub mod mount;
pub mod net;
pub mod path;
pub mod process;
pub mod proclist;
pub mod sendfile;
pub mod signal;
pub mod socket;
pub mod statx;
pub mod task;
pub mod timer;
pub mod types;

use vstd::prelude::*;

verus! {

} // verus!
