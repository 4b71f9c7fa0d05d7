//! Source locations and values annotated with them.

use vstd::prelude::*;

verus! {

/// A span of source text: the positions of its first and last character.
#[derive(Debug, Clone, Copy, PartialEq)]
pub struct Loc(pub usize, pub usize);

/// A value together with the span of source text it came from.
#[derive(Debug, Clone, Copy, PartialEq)]
pub struct Annot<T> {
    pub kind: T,
    pub loc: Loc,
}

impl<T> Annot<T> {
    pub fn new(kind: T, loc: Loc) -> (r: Self)
        ensures
            r.kind == kind,
            r.loc == loc,
    {
        Annot { kind, loc }
    }

    pub fn loc(&self) -> (r: Loc)
        ensures
            r == self.loc,
    {
        self.loc
    }
}

impl Loc {
    /// The smallest span that covers both `self` and `loc`.
    pub open spec fn merge_spec(self, loc: Loc) -> Loc {
        Loc(
            if self.0 <= loc.0 { self.0 } else { loc.0 },
            if self.1 >= loc.1 { self.1 } else { loc.1 },
        )
    }

    pub fn merge(&self, loc: Loc) -> (r: Self)
        ensures
            r == self.merge_spec(loc),
    {
        let start: usize = if self.0 <= loc.0 { self.0 } else { loc.0 };
        let end: usize = if self.1 >= loc.1 { self.1 } else { loc.1 };
        Loc(start, end)
    }

    pub fn new(start_pos: usize, end_pos: usize) -> (r: Self)
        ensures
            r == Loc(start_pos, end_pos),
    {
        Loc(start_pos, end_pos)
    }
}

/// Merging spans is commutative, associative and idempotent, and the merged
/// span covers both of its arguments.
pub proof fn lemma_merge_laws(a: Loc, b: Loc, c: Loc)
    ensures
        a.merge_spec(b) == b.merge_spec(a),
        a.merge_spec(b).merge_spec(c) == a.merge_spec(b.merge_spec(c)),
        a.merge_spec(a) == a,
        a.merge_spec(b).0 <= a.0 && a.merge_spec(b).0 <= b.0,
        a.merge_spec(b).1 >= a.1 && a.merge_spec(b).1 >= b.1,
{
}

} // verus!
