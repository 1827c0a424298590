//! Directory entries: their kinds, the steps of a path walk, the checks of
//! directory operations, and the text of a path name.

use vstd::prelude::*;

use crate::errno::{KResult, EEXIST, EINVAL, EISDIR, ELOOP, ENOENT, ENOTDIR, ERANGE, EXDEV};
use crate::path::{PathComponent, SLASH};
use crate::types::Format;

verus! {

/// What a valid dentry stands for.
#[derive(Debug, Clone, Copy, PartialEq, Eq, Structural)]
pub enum DentryKind {
    Regular,
    Directory,
    Symlink,
}

pub const D_INVALID: u8 = 0;
pub const D_REGULAR: u8 = 1;
pub const D_DIRECTORY: u8 = 2;
pub const D_SYMLINK: u8 = 3;

/// Most symbolic links followed in one walk.
pub const MAX_NR_FOLLOWS: u32 = 16;

/// Deepest path, in components, that `get_path` writes.
pub const MAX_PATH_DEPTH: usize = 33;

pub open spec fn kind_raw(k: DentryKind) -> u8 {
    match k {
        DentryKind::Regular => D_REGULAR,
        DentryKind::Directory => D_DIRECTORY,
        DentryKind::Symlink => D_SYMLINK,
    }
}

impl DentryKind {
    pub fn into_raw(self) -> (r: u8)
        ensures
            r == kind_raw(self),
    {
        match self {
            DentryKind::Regular => D_REGULAR,
            DentryKind::Directory => D_DIRECTORY,
            DentryKind::Symlink => D_SYMLINK,
        }
    }

    /// The kind stored as `raw`; zero stands for an invalid dentry.
    pub fn from_raw(raw: u8) -> (r: Option<Self>)
        requires
            raw <= D_SYMLINK,
        ensures
            raw == D_INVALID ==> r is None,
            raw != D_INVALID ==> r is Some && kind_raw(r->Some_0) == raw,
    {
        if raw == D_REGULAR {
            Some(DentryKind::Regular)
        } else if raw == D_DIRECTORY {
            Some(DentryKind::Directory)
        } else if raw == D_SYMLINK {
            Some(DentryKind::Symlink)
        } else {
            None
        }
    }

    /// The kind of dentry that an inode of `format` makes.
    pub fn of_format(format: Format) -> (r: Self)
        ensures
            r == (match format {
                Format::DIR => DentryKind::Directory,
                Format::LNK => DentryKind::Symlink,
                _ => DentryKind::Regular,
            }),
    {
        match format {
            Format::REG | Format::BLK | Format::CHR => DentryKind::Regular,
            Format::DIR => DentryKind::Directory,
            Format::LNK => DentryKind::Symlink,
        }
    }
}

/// Storing into raw form and reading back gives the same kind.
pub proof fn lemma_kind_round_trip(k: DentryKind)
    ensures
        kind_raw(k) != D_INVALID,
        kind_raw(k) <= D_SYMLINK,
{
}

/// The inode of a dentry is set once: an invalid dentry becomes valid and
/// then keeps its kind.
pub struct AssociatedInode {
    kind: Option<DentryKind>,
}

impl AssociatedInode {
    pub closed spec fn kind_spec(&self) -> Option<DentryKind> {
        self.kind
    }

    pub fn new() -> (r: Self)
        ensures
            r.kind_spec() is None,
    {
        AssociatedInode { kind: None }
    }

    /// Record the inode's format; a dentry is filled only once.
    pub fn store(&mut self, format: Format)
        requires
            old(self).kind_spec() is None,
        ensures
            final(self).kind_spec() == Some(
                match format {
                    Format::DIR => DentryKind::Directory,
                    Format::LNK => DentryKind::Symlink,
                    _ => DentryKind::Regular,
                },
            ),
    {
        self.kind = Some(DentryKind::of_format(format));
    }

    pub fn kind(&self) -> (r: Option<DentryKind>)
        ensures
            r == self.kind_spec(),
    {
        self.kind
    }

    pub fn is_directory(&self) -> (r: bool)
        ensures
            r == (self.kind_spec() == Some(DentryKind::Directory)),
    {
        match self.kind {
            Some(DentryKind::Directory) => true,
            _ => false,
        }
    }

    pub fn is_valid(&self) -> (r: bool)
        ensures
            r == self.kind_spec() is Some,
    {
        self.kind.is_some()
    }
}

/// One step of a path walk.
#[derive(Debug, Clone, Copy, PartialEq, Eq, Structural)]
pub enum WalkStep {
    /// Stay at the current directory.
    Stay,
    /// Go up to the parent directory.
    Parent,
    /// Look the name up in the current directory.
    Lookup,
    /// The current dentry is the result.
    Found,
    /// The current dentry is a symbolic link to resolve first.
    Symlink,
    /// The walk fails with this error.
    Fail(u32),
}

/// The step that a walk at a dentry of kind `kind` takes for the next
/// component (`None` when the path is exhausted).  A symbolic link is
/// resolved before anything else; `..` at the root of the walk stays there.
pub open spec fn walk_step_spec(
    kind: Option<DentryKind>,
    comp: Option<PathComponent>,
    at_root: bool,
) -> WalkStep {
    match comp {
        None => WalkStep::Found,
        Some(c) => if kind == Some(DentryKind::Symlink) {
            WalkStep::Symlink
        } else if kind == Some(DentryKind::Directory) {
            match c {
                PathComponent::TrailingEmpty => WalkStep::Stay,
                PathComponent::Current => WalkStep::Stay,
                PathComponent::Parent => if at_root {
                    WalkStep::Stay
                } else {
                    WalkStep::Parent
                },
                PathComponent::Name(_) => WalkStep::Lookup,
            }
        } else if kind is Some {
            WalkStep::Fail(ENOTDIR)
        } else if c is TrailingEmpty {
            WalkStep::Found
        } else {
            WalkStep::Fail(ENOENT)
        },
    }
}

pub fn walk_step(kind: Option<DentryKind>, comp: Option<&PathComponent>, at_root: bool) -> (r:
    WalkStep)
    ensures
        r == walk_step_spec(
            kind,
            match comp {
                Some(c) => Some(*c),
                None => None,
            },
            at_root,
        ),
{
    let c = match comp {
        None => return WalkStep::Found,
        Some(c) => c,
    };
    match kind {
        Some(DentryKind::Symlink) => WalkStep::Symlink,
        Some(DentryKind::Directory) => match c {
            PathComponent::TrailingEmpty | PathComponent::Current => WalkStep::Stay,
            PathComponent::Parent => {
                if at_root {
                    WalkStep::Stay
                } else {
                    WalkStep::Parent
                }
            },
            PathComponent::Name(_) => WalkStep::Lookup,
        },
        Some(_) => WalkStep::Fail(ENOTDIR),
        None => match c {
            PathComponent::TrailingEmpty => WalkStep::Found,
            _ => WalkStep::Fail(ENOENT),
        },
    }
}

/// Following one more symbolic link: `ELOOP` once `MAX_NR_FOLLOWS` have
/// been followed; otherwise the new count.
pub fn follow_symlink_check(nr_follows: u32) -> (r: KResult<u32>)
    ensures
        r == (if nr_follows >= MAX_NR_FOLLOWS {
            Err::<u32, u32>(ELOOP)
        } else {
            Ok::<u32, u32>((nr_follows + 1) as u32)
        }),
{
    if nr_follows >= MAX_NR_FOLLOWS {
        Err(ELOOP)
    } else {
        Ok(nr_follows + 1)
    }
}

/// Where a read or write of a dentry goes.
#[derive(Debug, Clone, Copy, PartialEq, Eq, Structural)]
pub enum IoRoute {
    Inode,
    BlockDevice,
    CharDevice,
}

/// Reads: directories are `EISDIR`, links `EINVAL`.
pub fn read_route(format: Format) -> (r: KResult<IoRoute>)
    ensures
        r == (match format {
            Format::DIR => Err::<IoRoute, u32>(EISDIR),
            Format::REG => Ok::<IoRoute, u32>(IoRoute::Inode),
            Format::BLK => Ok::<IoRoute, u32>(IoRoute::BlockDevice),
            Format::CHR => Ok::<IoRoute, u32>(IoRoute::CharDevice),
            Format::LNK => Err::<IoRoute, u32>(EINVAL),
        }),
{
    match format {
        Format::DIR => Err(EISDIR),
        Format::REG => Ok(IoRoute::Inode),
        Format::BLK => Ok(IoRoute::BlockDevice),
        Format::CHR => Ok(IoRoute::CharDevice),
        Format::LNK => Err(EINVAL),
    }
}

/// Writes: directories are `EISDIR`; block devices and links `EINVAL`.
pub fn write_route(format: Format) -> (r: KResult<IoRoute>)
    ensures
        r == (match format {
            Format::DIR => Err::<IoRoute, u32>(EISDIR),
            Format::REG => Ok::<IoRoute, u32>(IoRoute::Inode),
            Format::CHR => Ok::<IoRoute, u32>(IoRoute::CharDevice),
            _ => Err::<IoRoute, u32>(EINVAL),
        }),
{
    match format {
        Format::DIR => Err(EISDIR),
        Format::REG => Ok(IoRoute::Inode),
        Format::CHR => Ok(IoRoute::CharDevice),
        _ => Err(EINVAL),
    }
}

/// Creating a file system object (`mkdir`, `symlink`, `mknod`) at a
/// dentry that is already valid is `EEXIST`.
pub fn create_check(valid: bool) -> (r: KResult<()>)
    ensures
        r == (if valid {
            Err::<(), u32>(EEXIST)
        } else {
            Ok::<(), u32>(())
        }),
{
    if valid {
        Err(EEXIST)
    } else {
        Ok(())
    }
}

/// Removing an invalid dentry is `ENOENT`.
pub fn unlink_check(valid: bool) -> (r: KResult<()>)
    ensures
        r == (if valid {
            Ok::<(), u32>(())
        } else {
            Err::<(), u32>(ENOENT)
        }),
{
    if valid {
        Ok(())
    } else {
        Err(ENOENT)
    }
}

pub const RENAME_NOREPLACE: u32 = 1;
pub const RENAME_EXCHANGE: u32 = 2;

/// What a rename does.
#[derive(Debug, Clone, Copy, PartialEq, Eq, Structural)]
pub enum RenamePlan {
    /// Renaming a dentry onto itself does nothing.
    Nothing,
    /// Ask the old parent directory to move the entry.
    Move { is_exchange: bool, no_replace: bool },
}

/// Renaming across file systems is `EXDEV`.
pub fn rename_plan(same_dentry: bool, same_fs: bool, flags: u32) -> (r: KResult<RenamePlan>)
    ensures
        r == (if same_dentry {
            Ok::<RenamePlan, u32>(RenamePlan::Nothing)
        } else if !same_fs {
            Err::<RenamePlan, u32>(EXDEV)
        } else {
            Ok::<RenamePlan, u32>(
                RenamePlan::Move {
                    is_exchange: flags & RENAME_EXCHANGE != 0,
                    no_replace: flags & RENAME_NOREPLACE != 0,
                },
            )
        }),
{
    if same_dentry {
        return Ok(RenamePlan::Nothing);
    }
    if !same_fs {
        return Err(EXDEV);
    }
    Ok(
        RenamePlan::Move {
            is_exchange: flags & RENAME_EXCHANGE != 0,
            no_replace: flags & RENAME_NOREPLACE != 0,
        },
    )
}

/// The text that `get_path` writes for the names from the root down:
/// a slash, every name followed by a slash, and a NUL.
pub open spec fn path_text(names_root_first: Seq<Seq<u8>>) -> Seq<u8>
    decreases names_root_first.len(),
{
    if names_root_first.len() == 0 {
        seq![SLASH]
    } else {
        path_text(names_root_first.drop_last()) + names_root_first.last() + seq![SLASH]
    }
}

/// The names from the leaf up, reversed.
pub open spec fn root_first(names_leaf_first: Seq<Vec<u8>>) -> Seq<Seq<u8>> {
    Seq::new(
        names_leaf_first.len(),
        |i: int| names_leaf_first[names_leaf_first.len() - 1 - i]@,
    )
}

/// The path name of a dentry from the names met walking up to the root of
/// the walk (leaf first): `ELOOP` when more than `MAX_PATH_DEPTH` names are
/// met, `ERANGE` when the text does not fit in `capacity` bytes.
pub fn format_path(names_leaf_first: &Vec<Vec<u8>>, capacity: usize) -> (r: KResult<Vec<u8>>)
    ensures
        names_leaf_first@.len() > MAX_PATH_DEPTH ==> r == Err::<Vec<u8>, u32>(ELOOP),
        names_leaf_first@.len() <= MAX_PATH_DEPTH ==> ({
            let text = path_text(root_first(names_leaf_first@)) + seq![0u8];
            &&& text.len() <= capacity ==> r is Ok && r->Ok_0@ == text
            &&& text.len() > capacity ==> r == Err::<Vec<u8>, u32>(ERANGE)
        }),
{
    let n = names_leaf_first.len();
    if n > MAX_PATH_DEPTH {
        return Err(ELOOP);
    }
    let ghost rf = root_first(names_leaf_first@);
    let mut out: Vec<u8> = Vec::new();
    out.push(SLASH);
    let mut k: usize = 0;
    assert(rf.take(0) =~= Seq::<Seq<u8>>::empty());
    assert(out@ =~= path_text(rf.take(0)));
    while k < n
        invariant
            n == names_leaf_first@.len(),
            n <= MAX_PATH_DEPTH,
            k <= n,
            rf == root_first(names_leaf_first@),
            out@ == path_text(rf.take(k as int)),
        decreases n - k,
    {
        let name = &names_leaf_first[n - 1 - k];
        let mut j: usize = 0;
        let ghost base = out@;
        while j < name.len()
            invariant
                j <= name@.len(),
                out@ == base + name@.take(j as int),
            decreases name@.len() - j,
        {
            out.push(name[j]);
            assert(name@.take(j + 1) =~= name@.take(j as int).push(name@[j as int]));
            j = j + 1;
        }
        out.push(SLASH);
        proof {
            assert(name@.take(name@.len() as int) =~= name@);
            assert(rf.take(k + 1).drop_last() =~= rf.take(k as int));
            assert(rf.take(k + 1).last() == name@);
        }
        k = k + 1;
    }
    out.push(0u8);
    assert(rf.take(n as int) =~= rf);
    if out.len() > capacity {
        return Err(ERANGE);
    }
    Ok(out)
}

} // verus!
