# eonix

Verified core logic of the Eonix kernel, written in Verus.

`src/` holds the library.  Its functions carry contracts that Verus
proves, except the few wrappers around calls into xmas-elf, align_ext and
smoltcp, whose contracts restate what those crates' sources show and are
believed rather than proved:

- `filearray`: per-process descriptor tables (lowest free descriptor first,
  `dup`, `fcntl`, close-on-exec).
- `signal`: signals, masks, dispositions and the per-thread signal state
  (raising, the order of delivery, handler frames).
- `proclist`, `process`: the table of processes, groups and sessions
  (`fork`, `setsid`, `setpgid`, reaping and re-parenting to init) and the
  wait lists of `wait4`.
- `path`, `dcache`, `dentry`: path components, the fast walk over the
  dentry cache and the checks of directory operations.
- `file`, `dirent`, `statx`, `sendfile`, `mount`, `types`: open files,
  pipes, directory records, `statx`, `sendfile`, the mount table and file
  modes.
- `elf`: loading 32-bit ELF programs (headers, segment mappings, the
  auxiliary vector and the initial stack).
- `task`, `timer`, `net`, `socket`, `dataflow`: task states and outputs,
  the ready queue, timer ticks and sleepers, network links, ports and the
  rounds of the network worker, TCP and UDP sockets over smoltcp, and
  checked ranges of user memory.
- `boot`: how the boot disk is mounted and which program becomes `init`.

`app/` drives the library where it waits on outside work (file I/O and
filesystem lookups); `tests/` exercises the library on concrete values.
