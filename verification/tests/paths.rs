use eonix::dcache::{DentryCache, WalkOutcome};
use eonix::dentry::{
    create_check, follow_symlink_check, format_path, read_route, rename_plan, unlink_check,
    walk_step, write_route, AssociatedInode, DentryKind, IoRoute, RenamePlan, WalkStep,
    RENAME_EXCHANGE, RENAME_NOREPLACE,
};
use eonix::errno::{EEXIST, EINVAL, EISDIR, ELOOP, ENOENT, ENOTDIR, ERANGE, EXDEV};
use eonix::path::{Path, PathComponent, PathIterator};
use eonix::types::Format;

fn components(p: &[u8]) -> Vec<String> {
    let mut it = PathIterator::new(p);
    let mut out = Vec::new();
    while let Some(c) = it.next() {
        out.push(match c {
            PathComponent::Name(n) => String::from_utf8(n.to_vec()).unwrap(),
            PathComponent::TrailingEmpty => "<empty>".to_string(),
            PathComponent::Current => ".".to_string(),
            PathComponent::Parent => "..".to_string(),
        });
    }
    out
}

#[test]
fn empty_path_is_refused() {
    assert_eq!(Path::new(b"").err(), Some(ENOENT));
    assert!(Path::new(b"/a").unwrap().is_absolute());
    assert!(!Path::new(b"a").unwrap().is_absolute());
}

#[test]
fn path_components() {
    assert_eq!(components(b"/usr//bin/."), vec!["usr", "bin", "."]);
    assert_eq!(components(b"a/../b/"), vec!["a", "..", "b", "<empty>"]);
    assert_eq!(components(b"..."), vec!["..."]);
    assert!(components(b"").is_empty());
    assert_eq!(components(b"/"), vec!["<empty>"]);
}

fn sample_tree() -> DentryCache {
    let mut c = DentryCache::new();
    assert_eq!(c.d_add(0, b"usr", Some(DentryKind::Directory)), 1);
    assert_eq!(c.d_add(1, b"bin", Some(DentryKind::Directory)), 2);
    assert_eq!(c.d_add(2, b"sh", Some(DentryKind::Regular)), 3);
    assert_eq!(c.d_add(0, b"link", Some(DentryKind::Symlink)), 4);
    assert_eq!(c.d_add(0, b"gone", None), 5);
    c
}

fn walk(c: &DentryCache, start: usize, p: &[u8]) -> (WalkOutcome, Option<Vec<u8>>, Vec<u8>) {
    let mut it = PathIterator::new(p);
    let (out, name) = c.walk_rcu(0, start, &mut it);
    let mut rest = Vec::new();
    while let Some(comp) = it.next() {
        if let PathComponent::Name(n) = comp {
            rest.extend_from_slice(n);
        }
    }
    (out, name.map(|n| n.to_vec()), rest)
}

#[test]
fn walk_reaches_cached_file() {
    let c = sample_tree();
    assert_eq!(walk(&c, 0, b"/usr/bin/sh").0, WalkOutcome::Found(3));
    assert_eq!(walk(&c, 1, b"bin/./sh").0, WalkOutcome::Found(3));
    assert_eq!(walk(&c, 0, b"usr/../usr/bin").0, WalkOutcome::Found(2));
    assert_eq!(walk(&c, 0, b"..").0, WalkOutcome::Found(0));
    assert_eq!(walk(&c, 0, b"/../..").0, WalkOutcome::Found(0));
}

#[test]
fn walk_reports_a_miss_with_the_name() {
    let c = sample_tree();
    let (out, name, rest) = walk(&c, 0, b"usr/missing/x");
    assert_eq!(out, WalkOutcome::Miss(1));
    assert_eq!(name, Some(b"missing".to_vec()));
    assert_eq!(rest, b"x".to_vec());
}

#[test]
fn walk_stops_at_symlink_before_its_component() {
    let c = sample_tree();
    let (out, name, rest) = walk(&c, 0, b"link/x");
    assert_eq!(out, WalkOutcome::Symlink(4));
    assert_eq!(name, None);
    assert_eq!(rest, b"x".to_vec());
    assert_eq!(walk(&c, 0, b"link").0, WalkOutcome::Found(4));
}

#[test]
fn walk_errors() {
    let c = sample_tree();
    assert_eq!(walk(&c, 0, b"usr/bin/sh/x").0, WalkOutcome::Fail(ENOTDIR));
    assert_eq!(walk(&c, 0, b"gone/x").0, WalkOutcome::Fail(ENOENT));
    assert_eq!(walk(&c, 0, b"gone/").0, WalkOutcome::Found(5));
    assert_eq!(walk(&c, 0, b"gone").0, WalkOutcome::Found(5));
}

#[test]
fn find_rcu_in_directories_only() {
    let c = sample_tree();
    assert_eq!(c.find_rcu(3, b"x"), Err(ENOTDIR));
    assert_eq!(c.find_rcu(5, b"x"), Err(ENOENT));
    assert_eq!(c.find_rcu(2, b"."), Ok(Some(2)));
    assert_eq!(c.find_rcu(2, b".."), Ok(Some(1)));
    assert_eq!(c.find_rcu(2, b"sh"), Ok(Some(3)));
    assert_eq!(c.find_rcu(2, b"zz"), Ok(None));
    assert_eq!(c.d_find(0, b"usr"), Some(1));
}

#[test]
fn walk_steps() {
    assert_eq!(walk_step(None, None, false), WalkStep::Found);
    assert_eq!(
        walk_step(Some(DentryKind::Symlink), Some(&PathComponent::Current), false),
        WalkStep::Symlink
    );
    assert_eq!(
        walk_step(Some(DentryKind::Directory), Some(&PathComponent::Parent), true),
        WalkStep::Stay
    );
    assert_eq!(
        walk_step(Some(DentryKind::Directory), Some(&PathComponent::Parent), false),
        WalkStep::Parent
    );
    assert_eq!(
        walk_step(Some(DentryKind::Directory), Some(&PathComponent::Name(b"a")), false),
        WalkStep::Lookup
    );
    assert_eq!(
        walk_step(Some(DentryKind::Regular), Some(&PathComponent::Name(b"a")), false),
        WalkStep::Fail(ENOTDIR)
    );
    assert_eq!(
        walk_step(None, Some(&PathComponent::TrailingEmpty), false),
        WalkStep::Found
    );
    assert_eq!(walk_step(None, Some(&PathComponent::Current), false), WalkStep::Fail(ENOENT));
}

#[test]
fn symlink_follow_limit() {
    assert_eq!(follow_symlink_check(0), Ok(1));
    assert_eq!(follow_symlink_check(15), Ok(16));
    assert_eq!(follow_symlink_check(16), Err(ELOOP));
}

#[test]
fn path_text_of_a_dentry() {
    let names = vec![b"sh".to_vec(), b"bin".to_vec(), b"usr".to_vec()];
    assert_eq!(format_path(&names, 64), Ok(b"/usr/bin/sh/\0".to_vec()));
    assert_eq!(format_path(&names, 5), Err(ERANGE));
    assert_eq!(format_path(&Vec::new(), 2), Ok(b"/\0".to_vec()));
    let deep: Vec<Vec<u8>> = (0..34).map(|_| b"d".to_vec()).collect();
    assert_eq!(format_path(&deep, 4096), Err(ELOOP));
}

#[test]
fn dentry_operation_checks() {
    assert_eq!(create_check(true), Err(EEXIST));
    assert_eq!(create_check(false), Ok(()));
    assert_eq!(unlink_check(false), Err(ENOENT));
    assert_eq!(read_route(Format::DIR), Err(EISDIR));
    assert_eq!(read_route(Format::BLK), Ok(IoRoute::BlockDevice));
    assert_eq!(read_route(Format::LNK), Err(EINVAL));
    assert_eq!(write_route(Format::BLK), Err(EINVAL));
    assert_eq!(write_route(Format::CHR), Ok(IoRoute::CharDevice));
}

#[test]
fn rename_plans() {
    assert_eq!(rename_plan(true, false, 0), Ok(RenamePlan::Nothing));
    assert_eq!(rename_plan(false, false, 0), Err(EXDEV));
    assert_eq!(
        rename_plan(false, true, RENAME_EXCHANGE),
        Ok(RenamePlan::Move { is_exchange: true, no_replace: false })
    );
    assert_eq!(
        rename_plan(false, true, RENAME_NOREPLACE),
        Ok(RenamePlan::Move { is_exchange: false, no_replace: true })
    );
}

#[test]
fn inode_of_dentry_is_set_once() {
    let mut a = AssociatedInode::new();
    assert!(!a.is_valid());
    a.store(Format::DIR);
    assert!(a.is_valid());
    assert!(a.is_directory());
    assert_eq!(a.kind(), Some(DentryKind::Directory));
}

#[test]
fn dentry_kind_raw_round_trip() {
    for k in [DentryKind::Regular, DentryKind::Directory, DentryKind::Symlink] {
        assert_eq!(DentryKind::from_raw(k.into_raw()), Some(k));
    }
    assert_eq!(DentryKind::from_raw(0), None);
    assert_eq!(DentryKind::of_format(Format::LNK), DentryKind::Symlink);
    assert_eq!(DentryKind::of_format(Format::CHR), DentryKind::Regular);
}

#[test]
fn exchanged_dentries_swap_places() {
    let mut c = sample_tree();
    // /usr/bin/sh and /gone trade places: the file is now /gone.
    c.d_exchange(3, 5);
    assert_eq!(walk(&c, 0, b"/gone").0, WalkOutcome::Found(3));
    assert_eq!(walk(&c, 0, b"/usr/bin/sh").0, WalkOutcome::Found(5));
    assert_eq!(c.parent(3), 0);
    assert_eq!(c.parent(5), 2);
    // Exchanging again gives back the tree as it was.
    c.d_exchange(3, 5);
    assert_eq!(walk(&c, 0, b"/usr/bin/sh").0, WalkOutcome::Found(3));
    assert_eq!(walk(&c, 0, b"/gone").0, WalkOutcome::Found(5));
    // A dentry exchanged with itself stays.
    c.d_exchange(2, 2);
    assert_eq!(walk(&c, 0, b"/usr/bin").0, WalkOutcome::Found(2));
}

#[test]
fn symlink_targets_resolve_from_the_links_directory() {
    let c = sample_tree();
    // /link lives in the root directory.
    assert_eq!(c.symlink_resume(4, 0), Ok((0, 1)));
    assert_eq!(c.symlink_resume(4, 15), Ok((0, 16)));
    assert_eq!(c.symlink_resume(4, 16), Err(ELOOP));
}
