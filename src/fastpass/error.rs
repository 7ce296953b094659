use vstd::prelude::*;
use vstd::view::View as _;

use super::{Either, View};

/// The error of a parser that never fails.
pub use core::convert::Infallible;

verus! {

/// A parse failure that can be reported: where it points, and what was
/// expected there.
pub trait ErrorMessage {
    spec fn spec_at(&self) -> View;

    spec fn spec_expected(&self) -> Seq<char>;

    fn at(&self) -> (r: View)
        ensures
            r == self.spec_at(),
    ;

    fn expected(&self) -> (r: &'static str)
        ensures
            r@ == self.spec_expected(),
    ;
}

impl<L: ErrorMessage, R: ErrorMessage> ErrorMessage for Either<L, R> {
    open spec fn spec_at(&self) -> View {
        match self {
            Either::L(l) => l.spec_at(),
            Either::R(r) => r.spec_at(),
        }
    }

    open spec fn spec_expected(&self) -> Seq<char> {
        match self {
            Either::L(l) => l.spec_expected(),
            Either::R(r) => r.spec_expected(),
        }
    }

    fn at(&self) -> (r: View) {
        match self {
            Either::L(l) => l.at(),
            Either::R(r) => r.at(),
        }
    }

    fn expected(&self) -> (r: &'static str) {
        match self {
            Either::L(l) => l.expected(),
            Either::R(r) => r.expected(),
        }
    }
}

} // verus!
