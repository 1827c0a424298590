//! Path names and the splitting of a path into its components.

use vstd::prelude::*;

use crate::errno::{KResult, ENOENT};

verus! {

pub const SLASH: u8 = 47;
pub const DOT: u8 = 46;

/// A non-empty path name, as bytes.
pub struct Path<'a> {
    all: &'a [u8],
}

/// Walks the components of a path from left to right.
pub struct PathIterator<'lt> {
    rem: &'lt [u8],
}

/// One component of a path.
#[derive(Debug)]
pub enum PathComponent<'lt> {
    /// A name to look up in the current directory.
    Name(&'lt [u8]),
    /// Nothing follows the last slash.
    TrailingEmpty,
    /// `.`
    Current,
    /// `..`
    Parent,
}

/// Number of slashes that open `s`.
pub open spec fn slash_run(s: Seq<u8>) -> nat
    decreases s.len(),
{
    if s.len() > 0 && s[0] == SLASH {
        1 + slash_run(s.drop_first())
    } else {
        0
    }
}

/// Number of bytes before the first slash of `s`.
pub open spec fn name_run(s: Seq<u8>) -> nat
    decreases s.len(),
{
    if s.len() > 0 && s[0] != SLASH {
        1 + name_run(s.drop_first())
    } else {
        0
    }
}

/// The bytes of the next component of `s`: skip the slashes, then take
/// everything up to the next slash.
pub open spec fn next_component_bytes(s: Seq<u8>) -> Seq<u8> {
    let t = s.skip(slash_run(s) as int);
    t.take(name_run(t) as int)
}

/// What remains of `s` after its next component.
pub open spec fn after_next_component(s: Seq<u8>) -> Seq<u8> {
    let t = s.skip(slash_run(s) as int);
    t.skip(name_run(t) as int)
}

/// `c` is the component that the bytes `cur` stand for.
pub open spec fn component_is(c: PathComponent, cur: Seq<u8>) -> bool {
    match c {
        PathComponent::TrailingEmpty => cur.len() == 0,
        PathComponent::Current => cur == seq![DOT],
        PathComponent::Parent => cur == seq![DOT, DOT],
        PathComponent::Name(n) => n@ == cur && cur.len() > 0 && cur != seq![DOT] && cur != seq![
            DOT,
            DOT,
        ],
    }
}

proof fn lemma_slash_run_step(s: Seq<u8>, i: int)
    requires
        0 <= i < s.len(),
        s[i] == SLASH,
    ensures
        slash_run(s.skip(i)) == 1 + slash_run(s.skip(i + 1)),
{
    assert(s.skip(i).drop_first() =~= s.skip(i + 1));
}

proof fn lemma_name_run_step(s: Seq<u8>, i: int)
    requires
        0 <= i < s.len(),
        s[i] != SLASH,
    ensures
        name_run(s.skip(i)) == 1 + name_run(s.skip(i + 1)),
{
    assert(s.skip(i).drop_first() =~= s.skip(i + 1));
}

impl<'a> Path<'a> {
    pub closed spec fn bytes(&self) -> Seq<u8> {
        self.all@
    }

    /// A path from its bytes; `ENOENT` for the empty name.
    pub fn new(all: &'a [u8]) -> (r: KResult<Path<'a>>)
        ensures
            match r {
                Ok(p) => all@.len() > 0 && p.bytes() == all@,
                Err(e) => all@.len() == 0 && e == ENOENT,
            },
    {
        if all.len() == 0 {
            Err(ENOENT)
        } else {
            Ok(Path { all })
        }
    }

    /// The path starts with a slash.
    pub fn is_absolute(&self) -> (r: bool)
        ensures
            r == (self.bytes().len() > 0 && self.bytes()[0] == SLASH),
    {
        self.all.len() > 0 && self.all[0] == SLASH
    }

    /// An iterator over the components of the path.
    pub fn iter(&self) -> (r: PathIterator<'a>)
        ensures
            r.remaining() == self.bytes(),
    {
        PathIterator::new(self.all)
    }
}

impl<'lt> PathIterator<'lt> {
    pub closed spec fn remaining(&self) -> Seq<u8> {
        self.rem@
    }

    pub fn new(all: &'lt [u8]) -> (r: Self)
        ensures
            r.remaining() == all@,
    {
        PathIterator { rem: all }
    }

    /// Nothing is left to walk.
    pub fn is_empty(&self) -> (r: bool)
        ensures
            r == (self.remaining().len() == 0),
    {
        self.rem.len() == 0
    }

    /// The next component: leading slashes are skipped and the name runs up
    /// to the next slash.
    pub fn next(&mut self) -> (r: Option<PathComponent<'lt>>)
        ensures
            old(self).remaining().len() == 0 ==> r is None && final(self).remaining() == old(self).remaining(),
            old(self).remaining().len() > 0 ==> r is Some && component_is(
                r->Some_0,
                next_component_bytes(old(self).remaining()),
            ) && final(self).remaining() == after_next_component(old(self).remaining()),
            final(self).remaining().len() < old(self).remaining().len() || old(self).remaining().len() == 0,
    {
        if self.rem.len() == 0 {
            return None;
        }
        let s = self.rem;
        let ghost sv = s@;
        let mut i: usize = 0;
        assert(sv.skip(0) =~= sv);
        while i < s.len() && s[i] == SLASH
            invariant
                i <= s@.len(),
                s@ == sv,
                slash_run(sv) == i + slash_run(sv.skip(i as int)),
            decreases s@.len() - i,
        {
            proof {
                lemma_slash_run_step(sv, i as int);
            }
            i = i + 1;
        }
        proof {
            if i < sv.len() {
                assert(sv.skip(i as int)[0] == sv[i as int]);
            }
        }
        let start = i;
        while i < s.len() && s[i] != SLASH
            invariant
                start <= i <= s@.len(),
                s@ == sv,
                name_run(sv.skip(start as int)) == (i - start) + name_run(sv.skip(i as int)),
            decreases s@.len() - i,
        {
            proof {
                lemma_name_run_step(sv, i as int);
            }
            i = i + 1;
        }
        proof {
            if i < sv.len() {
                assert(sv.skip(i as int)[0] == sv[i as int]);
            }
        }
        let cur = &s[start..i];
        self.rem = &s[i..s.len()];
        let ghost t = sv.skip(start as int);
        assert(cur@ =~= t.take(name_run(t) as int));
        assert(self.rem@ =~= t.skip(name_run(t) as int));
        if cur.len() == 0 {
            Some(PathComponent::TrailingEmpty)
        } else if cur.len() == 1 && cur[0] == DOT {
            assert(cur@ =~= seq![DOT]);
            Some(PathComponent::Current)
        } else if cur.len() == 2 && cur[0] == DOT && cur[1] == DOT {
            assert(cur@ =~= seq![DOT, DOT]);
            Some(PathComponent::Parent)
        } else {
            proof {
                if cur@ == seq![DOT] {
                    assert(cur@[0] == DOT);
                }
                if cur@ == seq![DOT, DOT] {
                    assert(cur@[0] == DOT && cur@[1] == DOT);
                }
            }
            Some(PathComponent::Name(cur))
        }
    }
}

} // verus!
