//! The dentry cache and the fast path walk over it.
//!
//! Each cached dentry knows its parent, its name and, once it is valid,
//! what kind of file it stands for.  The fast walk follows a path through
//! the cache alone: it stops at a symbolic link without resolving it, and
//! reports a miss when a name is not cached, so that the caller can ask
//! the filesystem.

use vstd::prelude::*;

use crate::dentry::{follow_symlink_check, DentryKind, MAX_NR_FOLLOWS};
use crate::errno::{KResult, ELOOP, ENOENT, ENOTDIR};
use crate::path::{after_next_component, next_component_bytes, PathComponent, PathIterator, DOT};

verus! {

/// A cached dentry.
pub struct DentryNode {
    pub parent: usize,
    pub name: Vec<u8>,
    pub kind: Option<DentryKind>,
}

/// The dentries known to the cache, by index.
pub struct DentryCache {
    nodes: Vec<DentryNode>,
}

/// How a fast walk ends.
#[derive(Debug, Clone, Copy, PartialEq, Eq, Structural)]
pub enum WalkOutcome {
    /// The walk reached this dentry.
    Found(usize),
    /// This dentry is a symbolic link that must be resolved to go on.
    Symlink(usize),
    /// The next name is not cached in this directory.
    Miss(usize),
    /// The walk fails with this error.
    Fail(u32),
}

/// Dentry `i` is the one named `name` in directory `parent`.
pub open spec fn is_entry(nodes: Seq<DentryNode>, i: int, parent: usize, name: Seq<u8>) -> bool {
    nodes[i].parent == parent && nodes[i].name@ == name
}

/// The first of the first `n` dentries named `name` in `parent`.
pub open spec fn first_entry(nodes: Seq<DentryNode>, parent: usize, name: Seq<u8>, n: nat) -> Option<
    usize,
>
    decreases n,
{
    if n == 0 {
        None
    } else {
        match first_entry(nodes, parent, name, (n - 1) as nat) {
            Some(i) => Some(i),
            None => if is_entry(nodes, n - 1, parent, name) {
                Some((n - 1) as usize)
            } else {
                None
            },
        }
    }
}

/// The dentry named `name` in `parent`, as the cache finds it.
pub open spec fn lookup(nodes: Seq<DentryNode>, parent: usize, name: Seq<u8>) -> Option<usize> {
    first_entry(nodes, parent, name, nodes.len())
}

/// What remains of a non-empty path after its next component is shorter.
pub proof fn lemma_component_consumes(s: Seq<u8>)
    requires
        s.len() > 0,
    ensures
        after_next_component(s).len() < s.len(),
{
    let k = crate::path::slash_run(s);
    let t = s.skip(k as int);
    if s[0] == crate::path::SLASH {
        assert(s.drop_first().len() < s.len());
        lemma_runs_bounded(s);
    } else {
        assert(k == 0);
        assert(t =~= s);
        assert(crate::path::name_run(t) >= 1);
        lemma_runs_bounded(s);
    }
}

proof fn lemma_runs_bounded(s: Seq<u8>)
    ensures
        crate::path::slash_run(s) <= s.len(),
        crate::path::name_run(s.skip(crate::path::slash_run(s) as int)) <= s.len()
            - crate::path::slash_run(s),
    decreases s.len(),
{
    lemma_slash_run_bounded(s);
    lemma_name_run_bounded(s.skip(crate::path::slash_run(s) as int));
}

proof fn lemma_slash_run_bounded(s: Seq<u8>)
    ensures
        crate::path::slash_run(s) <= s.len(),
    decreases s.len(),
{
    if s.len() > 0 && s[0] == crate::path::SLASH {
        lemma_slash_run_bounded(s.drop_first());
    }
}

proof fn lemma_name_run_bounded(s: Seq<u8>)
    ensures
        crate::path::name_run(s) <= s.len(),
    decreases s.len(),
{
    if s.len() > 0 && s[0] != crate::path::SLASH {
        lemma_name_run_bounded(s.drop_first());
    }
}

/// The fast walk from dentry `cur` over the path bytes `rem`, `root`
/// being the root of the walk: the outcome, and what is left of the path.
pub open spec fn walk_rcu_spec(nodes: Seq<DentryNode>, root: usize, cur: usize, rem: Seq<u8>) -> (
    WalkOutcome,
    Seq<u8>,
)
    decreases rem.len(),
{
    if rem.len() == 0 {
        (WalkOutcome::Found(cur), rem)
    } else if nodes[cur as int].kind == Some(DentryKind::Symlink) {
        (WalkOutcome::Symlink(cur), rem)
    } else {
        let b = next_component_bytes(rem);
        let rest = after_next_component(rem);
        proof {
            lemma_component_consumes(rem);
        }
        if nodes[cur as int].kind == Some(DentryKind::Directory) {
            if b.len() == 0 || b == seq![DOT] {
                walk_rcu_spec(nodes, root, cur, rest)
            } else if b == seq![DOT, DOT] {
                if cur == root {
                    walk_rcu_spec(nodes, root, cur, rest)
                } else {
                    walk_rcu_spec(nodes, root, nodes[cur as int].parent, rest)
                }
            } else {
                match lookup(nodes, cur, b) {
                    Some(c) => walk_rcu_spec(nodes, root, c, rest),
                    None => (WalkOutcome::Miss(cur), rest),
                }
            }
        } else if nodes[cur as int].kind is Some {
            (WalkOutcome::Fail(ENOTDIR), rest)
        } else if b.len() == 0 {
            (WalkOutcome::Found(cur), rest)
        } else {
            (WalkOutcome::Fail(ENOENT), rest)
        }
    }
}

/// `new` is the tree `old` after dentries `a` and `b` exchanged their
/// places: each has the parent and the name of the other and keeps its
/// kind; every other dentry is as it was.
pub open spec fn exchanged(old: Seq<DentryNode>, new: Seq<DentryNode>, a: usize, b: usize) -> bool {
    &&& new.len() == old.len()
    &&& a == b ==> new == old
    &&& a != b ==> {
        &&& new[a as int].parent == old[b as int].parent
        &&& new[a as int].name@ == old[b as int].name@
        &&& new[a as int].kind == old[a as int].kind
        &&& new[b as int].parent == old[a as int].parent
        &&& new[b as int].name@ == old[a as int].name@
        &&& new[b as int].kind == old[b as int].kind
    }
    &&& forall|i: int| 0 <= i < old.len() && i != a && i != b ==> #[trigger] new[i] == old[i]
}

impl DentryCache {
    pub closed spec fn nodes(&self) -> Seq<DentryNode> {
        self.nodes@
    }

    pub open spec fn wf(&self) -> bool {
        forall|i: int| 0 <= i < self.nodes().len() ==> (#[trigger] self.nodes()[i]).parent < self.nodes().len()
    }

    /// A cache holding only the root directory, its own parent.
    pub fn new() -> (r: Self)
        ensures
            r.wf(),
            r.nodes().len() == 1,
            r.nodes()[0].parent == 0,
            r.nodes()[0].name@ == Seq::<u8>::empty(),
            r.nodes()[0].kind == Some(DentryKind::Directory),
    {
        let mut nodes = Vec::new();
        nodes.push(DentryNode { parent: 0, name: Vec::new(), kind: Some(DentryKind::Directory) });
        DentryCache { nodes }
    }

    pub fn len(&self) -> (r: usize)
        ensures
            r == self.nodes().len(),
    {
        self.nodes.len()
    }

    pub fn kind(&self, i: usize) -> (r: Option<DentryKind>)
        requires
            i < self.nodes().len(),
        ensures
            r == self.nodes()[i as int].kind,
    {
        self.nodes[i].kind
    }

    pub fn parent(&self, i: usize) -> (r: usize)
        requires
            i < self.nodes().len(),
        ensures
            r == self.nodes()[i as int].parent,
    {
        self.nodes[i].parent
    }

    /// Cache the dentry `name` of directory `parent` with the kind that the
    /// filesystem gave it (`None` for a name that does not exist); its
    /// index comes back.
    pub fn d_add(&mut self, parent: usize, name: &[u8], kind: Option<DentryKind>) -> (r: usize)
        requires
            old(self).wf(),
            parent < old(self).nodes().len(),
        ensures
            final(self).wf(),
            r == old(self).nodes().len(),
            final(self).nodes().len() == old(self).nodes().len() + 1,
            final(self).nodes().take(r as int) == old(self).nodes(),
            final(self).nodes()[r as int].parent == parent,
            final(self).nodes()[r as int].name@ == name@,
            final(self).nodes()[r as int].kind == kind,
    {
        let r = self.nodes.len();
        let mut owned: Vec<u8> = Vec::new();
        let mut i: usize = 0;
        while i < name.len()
            invariant
                i <= name@.len(),
                owned@ == name@.take(i as int),
            decreases name@.len() - i,
        {
            owned.push(name[i]);
            assert(owned@ =~= name@.take(i + 1));
            i += 1;
        }
        assert(name@.take(name@.len() as int) =~= name@);
        self.nodes.push(DentryNode { parent, name: owned, kind });
        assert(self.nodes().take(r as int) =~= old(self).nodes());
        assert forall|j: int| 0 <= j < self.nodes().len() implies (#[trigger] self.nodes()[j]).parent
            < self.nodes().len() by {
            if j < r {
                assert(self.nodes()[j] == old(self).nodes()[j]);
            }
        }
        r
    }

    /// Exchange the places of dentries `a` and `b` in the tree: each takes
    /// the parent and the name of the other and keeps what it stands for,
    /// as a rename over an existing entry does.  Nothing changes when they
    /// are the same dentry.
    pub fn d_exchange(&mut self, a: usize, b: usize)
        requires
            old(self).wf(),
            a < old(self).nodes().len(),
            b < old(self).nodes().len(),
        ensures
            final(self).wf(),
            exchanged(old(self).nodes(), final(self).nodes(), a, b),
    {
        if a == b {
            return;
        }
        let pa = self.nodes[a].parent;
        let pb = self.nodes[b].parent;
        let ka = self.nodes[a].kind;
        let kb = self.nodes[b].kind;
        let na = copy_bytes(&self.nodes[a].name);
        let nb = copy_bytes(&self.nodes[b].name);
        self.nodes.set(a, DentryNode { parent: pb, name: nb, kind: ka });
        self.nodes.set(b, DentryNode { parent: pa, name: na, kind: kb });
    }

    /// Where the walk goes on after reaching symbolic link `link`, with
    /// `nr_follows` links followed so far: its target is resolved from the
    /// directory that holds the link, and one more link counts as followed
    /// (`ELOOP` once `MAX_NR_FOLLOWS` were).
    pub fn symlink_resume(&self, link: usize, nr_follows: u32) -> (r: KResult<(usize, u32)>)
        requires
            link < self.nodes().len(),
        ensures
            r == (if nr_follows >= MAX_NR_FOLLOWS {
                Err::<(usize, u32), u32>(ELOOP)
            } else {
                Ok::<(usize, u32), u32>((self.nodes()[link as int].parent, (nr_follows + 1) as u32))
            }),
    {
        let next = match follow_symlink_check(nr_follows) {
            Ok(n) => n,
            Err(e) => return Err(e),
        };
        Ok((self.nodes[link].parent, next))
    }

    /// The cached dentry named `name` in directory `parent` (the first one
    /// when there are several).
    pub fn d_find(&self, parent: usize, name: &[u8]) -> (r: Option<usize>)
        ensures
            r == lookup(self.nodes(), parent, name@),
    {
        let mut i: usize = 0;
        while i < self.nodes.len()
            invariant
                i <= self.nodes().len(),
                first_entry(self.nodes(), parent, name@, i as nat) is None,
            decreases self.nodes().len() - i,
        {
            if self.nodes[i].parent == parent && bytes_equal(&self.nodes[i].name, name) {
                assert(first_entry(self.nodes(), parent, name@, (i + 1) as nat) == Some(i));
                proof {
                    lemma_first_entry_stable(self.nodes(), parent, name@, (i + 1) as nat, self.nodes().len());
                }
                return Some(i);
            }
            assert(first_entry(self.nodes(), parent, name@, (i + 1) as nat) is None);
            i += 1;
        }
        None
    }

    /// The lookup of the fast walk: only a directory can be searched
    /// (`ENOTDIR`, `ENOENT` for an invalid dentry); `.` is the directory
    /// itself and `..` its parent; any other name is looked up in the cache.
    pub fn find_rcu(&self, cur: usize, name: &[u8]) -> (r: Result<Option<usize>, u32>)
        requires
            self.wf(),
            cur < self.nodes().len(),
        ensures
            self.nodes()[cur as int].kind is None ==> r == Err::<Option<usize>, u32>(ENOENT),
            self.nodes()[cur as int].kind is Some && self.nodes()[cur as int].kind != Some(
                DentryKind::Directory,
            ) ==> r == Err::<Option<usize>, u32>(ENOTDIR),
            self.nodes()[cur as int].kind == Some(DentryKind::Directory) ==> r == Ok::<
                Option<usize>,
                u32,
            >(
                if name@ == seq![DOT] {
                    Some(cur)
                } else if name@ == seq![DOT, DOT] {
                    Some(self.nodes()[cur as int].parent)
                } else {
                    lookup(self.nodes(), cur, name@)
                },
            ),
    {
        match self.nodes[cur].kind {
            Some(DentryKind::Directory) => {},
            Some(_) => return Err(ENOTDIR),
            None => return Err(ENOENT),
        }
        if name.len() == 1 && name[0] == DOT {
            assert(name@ =~= seq![DOT]);
            return Ok(Some(cur));
        }
        if name.len() == 2 && name[0] == DOT && name[1] == DOT {
            assert(name@ =~= seq![DOT, DOT]);
            return Ok(Some(self.nodes[cur].parent));
        }
        proof {
            if name@ == seq![DOT] {
                assert(name@[0] == DOT);
            }
            if name@ == seq![DOT, DOT] {
                assert(name@[0] == DOT && name@[1] == DOT);
            }
        }
        Ok(self.d_find(cur, name))
    }

    /// Walk the path left in `iter` from dentry `cur` through the cache,
    /// `root` being the root of the walk (`..` stays there).  The walk
    /// ends on the dentry reached, on a symbolic link (not consumed), on a
    /// name that is not cached (consumed; the miss and the name come back),
    /// or on an error; `iter` is left after what was walked.
    pub fn walk_rcu<'p>(&self, root: usize, cur: usize, iter: &mut PathIterator<'p>) -> (r: (
        WalkOutcome,
        Option<&'p [u8]>,
    ))
        requires
            self.wf(),
            root < self.nodes().len(),
            cur < self.nodes().len(),
        ensures
            r.0 == walk_rcu_spec(self.nodes(), root, cur, old(iter).remaining()).0,
            final(iter).remaining() == walk_rcu_spec(self.nodes(), root, cur, old(iter).remaining()).1,
            r.0 is Miss ==> r.1 is Some,
            r.1 is Some ==> r.0 is Miss,
    {
        let mut current = cur;
        loop
            invariant
                self.wf(),
                root < self.nodes().len(),
                current < self.nodes().len(),
                walk_rcu_spec(self.nodes(), root, current, iter.remaining()).0 == walk_rcu_spec(
                    self.nodes(),
                    root,
                    cur,
                    old(iter).remaining(),
                ).0,
                walk_rcu_spec(self.nodes(), root, current, iter.remaining()).1 == walk_rcu_spec(
                    self.nodes(),
                    root,
                    cur,
                    old(iter).remaining(),
                ).1,
            decreases iter.remaining().len(),
        {
            if iter.is_empty() {
                return (WalkOutcome::Found(current), None);
            }
            let kind = self.nodes[current].kind;
            if let Some(DentryKind::Symlink) = kind {
                return (WalkOutcome::Symlink(current), None);
            }
            let ghost rem = iter.remaining();
            let component = match iter.next() {
                Some(c) => c,
                None => return (WalkOutcome::Found(current), None),
            };
            let ghost prev = current;
            proof {
                lemma_component_consumes(rem);
                assert(walk_rcu_spec(self.nodes(), root, prev, rem).0 == walk_rcu_spec(self.nodes(), root, cur, old(iter).remaining()).0);
                                assert(walk_rcu_spec(self.nodes(), root, prev, rem).1 == walk_rcu_spec(self.nodes(), root, cur, old(iter).remaining()).1);
            }
            match kind {
                Some(DentryKind::Directory) => {
                    match component {
                        PathComponent::TrailingEmpty | PathComponent::Current => {
                            assert(walk_rcu_spec(self.nodes(), root, prev, rem).0 == walk_rcu_spec(self.nodes(), root, current, iter.remaining()).0);
                                assert(walk_rcu_spec(self.nodes(), root, prev, rem).1 == walk_rcu_spec(self.nodes(), root, current, iter.remaining()).1);
                        },
                        PathComponent::Parent => {
                            assert(next_component_bytes(rem) =~= seq![DOT, DOT]);
                            assert(next_component_bytes(rem).len() == 2);
                            assert(next_component_bytes(rem) != seq![DOT]);
                            if current != root {
                                current = self.nodes[current].parent;
                                assert(self.nodes()[prev as int].parent < self.nodes().len());
                            }
                            assert(walk_rcu_spec(self.nodes(), root, prev, rem).0 == walk_rcu_spec(self.nodes(), root, current, iter.remaining()).0);
                                assert(walk_rcu_spec(self.nodes(), root, prev, rem).1 == walk_rcu_spec(self.nodes(), root, current, iter.remaining()).1);
                        },
                        PathComponent::Name(name) => {
                            match self.find_rcu(current, name) {
                                Err(e) => return (WalkOutcome::Fail(e), None),
                                Ok(Some(found)) => {
                                    assert(self.nodes().len() == self.nodes.len());
                                    proof {
                                        lemma_first_entry_found(
                                            self.nodes(),
                                            prev,
                                            name@,
                                            self.nodes().len(),
                                        );
                                    }
                                    current = found;
                                    assert(walk_rcu_spec(self.nodes(), root, prev, rem).0 == walk_rcu_spec(self.nodes(), root, current, iter.remaining()).0);
                                assert(walk_rcu_spec(self.nodes(), root, prev, rem).1 == walk_rcu_spec(self.nodes(), root, current, iter.remaining()).1);
                                },
                                Ok(None) => return (WalkOutcome::Miss(current), Some(name)),
                            }
                        },
                    }
                },
                Some(_) => return (WalkOutcome::Fail(ENOTDIR), None),
                None => {
                    match component {
                        PathComponent::TrailingEmpty => return (WalkOutcome::Found(current), None),
                        _ => return (WalkOutcome::Fail(ENOENT), None),
                    }
                },
            }
        }
    }
}

/// A match found among the first `n` dentries is one of them.
proof fn lemma_first_entry_found(nodes: Seq<DentryNode>, parent: usize, name: Seq<u8>, n: nat)
    requires
        n <= usize::MAX,
    ensures
        first_entry(nodes, parent, name, n) matches Some(i) ==> i < n && is_entry(
            nodes,
            i as int,
            parent,
            name,
        ),
    decreases n,
{
    if n > 0 {
        lemma_first_entry_found(nodes, parent, name, (n - 1) as nat);
    }
}

/// Extending the range searched keeps the first match.
proof fn lemma_first_entry_stable(nodes: Seq<DentryNode>, parent: usize, name: Seq<u8>, n: nat, m: nat)
    requires
        n <= m,
        first_entry(nodes, parent, name, n) is Some,
    ensures
        first_entry(nodes, parent, name, m) == first_entry(nodes, parent, name, n),
    decreases m - n,
{
    if n < m {
        lemma_first_entry_stable(nodes, parent, name, n, (m - 1) as nat);
    }
}

fn copy_bytes(a: &Vec<u8>) -> (r: Vec<u8>)
    ensures
        r@ == a@,
{
    let mut out: Vec<u8> = Vec::new();
    let mut i: usize = 0;
    while i < a.len()
        invariant
            i <= a@.len(),
            out@ == a@.take(i as int),
        decreases a@.len() - i,
    {
        out.push(a[i]);
        assert(out@ =~= a@.take(i + 1));
        i += 1;
    }
    assert(a@.take(a@.len() as int) =~= a@);
    out
}

fn bytes_equal(a: &Vec<u8>, b: &[u8]) -> (r: bool)
    ensures
        r == (a@ == b@),
{
    if a.len() != b.len() {
        return false;
    }
    let mut i: usize = 0;
    while i < a.len()
        invariant
            i <= a@.len(),
            a@.len() == b@.len(),
            forall|j: int| 0 <= j < i ==> a@[j] == b@[j],
        decreases a@.len() - i,
    {
        if a[i] != b[i] {
            return false;
        }
        i += 1;
    }
    assert(a@ =~= b@);
    true
}

/// Exchanging the same two dentries twice gives back the tree as it was:
/// every dentry has its parent, its name and its kind again.
pub proof fn law_exchange_twice(t0: Seq<DentryNode>, t1: Seq<DentryNode>, t2: Seq<DentryNode>, a: usize, b: usize)
    requires
        a < t0.len(),
        b < t0.len(),
        exchanged(t0, t1, a, b),
        exchanged(t1, t2, a, b),
    ensures
        t2.len() == t0.len(),
        forall|i: int|
            0 <= i < t0.len() ==> (#[trigger] t2[i]).parent == t0[i].parent && t2[i].name@ == t0[i].name@
                && t2[i].kind == t0[i].kind,
{
}

/// `..` at the root of a walk stays there, and `.` stays where it is: a
/// walk of either from a directory ends on that directory.
pub proof fn law_walk_dot_and_root_parent(nodes: Seq<DentryNode>, root: usize, cur: usize)
    requires
        root < nodes.len(),
        cur < nodes.len(),
        nodes[cur as int].kind == Some(DentryKind::Directory),
        nodes[root as int].kind == Some(DentryKind::Directory),
    ensures
        walk_rcu_spec(nodes, root, cur, seq![DOT]).0 == WalkOutcome::Found(cur),
        walk_rcu_spec(nodes, root, root, seq![DOT, DOT]).0 == WalkOutcome::Found(root),
{
    let dot = seq![DOT];
    assert(crate::path::slash_run(dot) == 0);
    assert(dot.skip(0) =~= dot);
    assert(dot.drop_first() =~= Seq::<u8>::empty());
    assert(crate::path::name_run(dot.drop_first()) == 0);
    assert(crate::path::name_run(dot) == 1);
    assert(next_component_bytes(dot) =~= dot);
    assert(after_next_component(dot) =~= Seq::<u8>::empty());
    let dd = seq![DOT, DOT];
    assert(crate::path::slash_run(dd) == 0);
    assert(dd.skip(0) =~= dd);
    assert(dd.drop_first() =~= seq![DOT]);
    assert(crate::path::name_run(dd.drop_first()) == 1);
    assert(crate::path::name_run(dd) == 2);
    assert(next_component_bytes(dd) =~= dd);
    assert(after_next_component(dd) =~= Seq::<u8>::empty());
    assert(dd.len() == 2);
    assert(dd != seq![DOT]);
    let empty = Seq::<u8>::empty();
    assert(walk_rcu_spec(nodes, root, cur, empty).0 == WalkOutcome::Found(cur));
    assert(walk_rcu_spec(nodes, root, root, empty).0 == WalkOutcome::Found(root));
    assert(walk_rcu_spec(nodes, root, cur, dot).0 == walk_rcu_spec(nodes, root, cur, empty).0);
    assert(walk_rcu_spec(nodes, root, root, dd).0 == walk_rcu_spec(nodes, root, root, empty).0);
}

} // verus!
