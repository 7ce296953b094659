use vstd::prelude::*;

verus! {

/// A disjoint union: which of two parts produced a value or failed.
#[derive(Debug)]
pub enum Either<L, R> {
    L(L),
    R(R),
}

impl<T> Either<T, T> {
    /// Forgets which side the value came from.
    pub fn fuse(self) -> (r: T)
        ensures
            r == match self {
                Either::L(t) => t,
                Either::R(t) => t,
            },
    {
        match self {
            Either::L(t) => t,
            Either::R(t) => t,
        }
    }
}

} // verus!
