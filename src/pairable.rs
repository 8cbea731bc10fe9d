//! A pair of values whose halves can be mapped one at a time.
use vstd::prelude::*;

verus! {

/// Two values, first and second.
#[derive(Debug, PartialEq, PartialOrd)]
pub struct Pair<A, B>(pub A, pub B);

impl<A, B> Pair<A, B> {
    /// Applies `f` to the first value and keeps the second.
    pub fn map_first<F, C>(self, f: F) -> (r: Pair<C, B>) where F: FnOnce(A) -> C
        requires
            f.requires((self.0,)),
        ensures
            f.ensures((self.0,), r.0),
            r.1 == self.1,
    {
        Pair(f(self.0), self.1)
    }

    /// Applies `f` to the second value and keeps the first.
    pub fn fmap_second<F, C>(self, f: F) -> (r: Pair<A, C>) where F: FnOnce(B) -> C
        requires
            f.requires((self.1,)),
        ensures
            r.0 == self.0,
            f.ensures((self.1,), r.1),
    {
        Pair(self.0, f(self.1))
    }
}

impl<A, B> From<Pair<A, B>> for (A, B) {
    fn from(pair: Pair<A, B>) -> (r: (A, B)) {
        (pair.0, pair.1)
    }
}

impl<A, B> vstd::std_specs::convert::FromSpecImpl<Pair<A, B>> for (A, B) {
    open spec fn obeys_from_spec() -> bool {
        true
    }

    open spec fn from_spec(v: Pair<A, B>) -> (A, B) {
        (v.0, v.1)
    }
}

impl<A, B> From<(A, B)> for Pair<A, B> {
    fn from(tuple: (A, B)) -> (r: Pair<A, B>) {
        Pair(tuple.0, tuple.1)
    }
}

impl<A, B> vstd::std_specs::convert::FromSpecImpl<(A, B)> for Pair<A, B> {
    open spec fn obeys_from_spec() -> bool {
        true
    }

    open spec fn from_spec(v: (A, B)) -> Pair<A, B> {
        Pair(v.0, v.1)
    }
}

} // verus!
