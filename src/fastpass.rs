//! A parser-combinator engine over [`View`]s. Each parser states, through
//! [`Parser::parses`], which outcomes it may produce for an input window.

use vstd::prelude::*;
use vstd::view::View as _;

pub mod either;
pub mod error;
pub mod expect;
pub mod flatmap;
pub mod map;
pub mod optional;
pub mod or;
pub mod repeat;
pub mod str;
pub mod then;
pub mod view;

pub use either::Either;
pub use error::{ErrorMessage, Infallible};
pub use expect::{expect, Expect};
pub use flatmap::{flatmap, flatmap_err, flatmap_ok, FlatMap, FlatMapErr, FlatMapOk};
pub use map::{map_err, map_ok, MapBoth, MapErr, MapOk};
pub use optional::{optional, Optional};
pub use or::{or, Or};
pub use repeat::{greedy, repeat_if, Greedy, RepeatIf};
pub use str::CaptureWhile;
pub use then::{then, then_left, then_right, Then, ThenLeft, ThenRight};
pub use view::{caret_window, View};

verus! {

/// Success carries the remaining window and a value; failure a typed error.
pub type ParseResult<T, E> = Result<(View, T), E>;

/// `next` is what a parser may leave of `buf`: a suffix of it in the same source.
pub open spec fn is_rest(buf: View, next: View) -> bool {
    &&& next.wf()
    &&& next.source == buf.source
    &&& buf.start <= next.start
    &&& next.end == buf.end
}

/// On success the remaining window is a suffix of the input.
pub open spec fn rest_ok<T, E>(buf: View, r: ParseResult<T, E>) -> bool {
    r is Ok ==> is_rest(buf, r->Ok_0.0)
}

/// The outcome without its remaining window.
pub open spec fn outcome<T, E>(r: ParseResult<T, E>) -> Result<T, E> {
    match r {
        Ok((_, t)) => Ok(t),
        Err(e) => Err(e),
    }
}

pub trait Parser: Sized {
    type Output;
    type Error;

    /// What the parser needs of its parts (closures callable on every input, ...).
    spec fn valid(&self) -> bool;

    /// `r` is an outcome that parsing `buf` may give.
    spec fn parses(&self, buf: View, r: ParseResult<Self::Output, Self::Error>) -> bool;

    fn parse(&self, buf: View) -> (r: ParseResult<Self::Output, Self::Error>)
        requires
            self.valid(),
            buf.wf(),
        ensures
            self.parses(buf, r),
            rest_ok(buf, r),
    ;

    /// This parser, then `next` on what it leaves.
    fn then<P>(self, next: P) -> (r: Then<Self, P>)
        ensures
            r.l == self,
            r.r == next,
    {
        Then { l: self, r: next }
    }

    /// This parser, or `other` from the same start where it fails.
    fn or<P>(self, other: P) -> (r: Or<Self, P>)
        ensures
            r.l == self,
            r.r == other,
    {
        Or { l: self, r: other }
    }

    /// This parser, then `next`, keeping this parser's value.
    fn then_left<P>(self, next: P) -> (r: ThenLeft<Self, P>)
        ensures
            r.l == self,
            r.r == next,
    {
        ThenLeft { l: self, r: next }
    }

    /// This parser, then `next`, keeping `next`'s value.
    fn then_right<P>(self, next: P) -> (r: ThenRight<Self, P>)
        ensures
            r.l == self,
            r.r == next,
    {
        ThenRight { l: self, r: next }
    }

    /// This parser with its whole outcome mapped through `f`.
    fn map<F>(self, f: F) -> (r: MapBoth<Self, F>)
        ensures
            r.parser == self,
            r.f == f,
    {
        MapBoth { parser: self, f }
    }

    /// This parser with its value mapped through `f`.
    fn map_ok<F>(self, f: F) -> (r: MapOk<Self, F>)
        ensures
            r.parser == self,
            r.f == f,
    {
        MapOk { parser: self, f }
    }

    /// This parser with its failure mapped through `f`.
    fn map_err<F>(self, f: F) -> (r: MapErr<Self, F>)
        ensures
            r.parser == self,
            r.f == f,
    {
        MapErr { parser: self, f }
    }

    /// This parser, continued by what `f` builds from its outcome.
    fn flatmap<F>(self, f: F) -> (r: FlatMap<Self, F>)
        ensures
            r.parser == self,
            r.f == f,
    {
        FlatMap { parser: self, f }
    }

    /// This parser, continued on success by what `f` builds from its value.
    fn flatmap_ok<F>(self, f: F) -> (r: FlatMapOk<Self, F>)
        ensures
            r.parser == self,
            r.f == f,
    {
        FlatMapOk { parser: self, f }
    }

    /// This parser, recovered on failure by what `f` builds from its error.
    fn flatmap_err<F>(self, f: F) -> (r: FlatMapErr<Self, F>)
        ensures
            r.parser == self,
            r.f == f,
    {
        FlatMapErr { parser: self, f }
    }

    /// This parser repeated while `test`, shown the values so far, asks for more.
    fn repeat_if<F>(self, test: F) -> (r: RepeatIf<Self, F>)
        ensures
            r.parser == self,
            r.test == test,
    {
        RepeatIf { parser: self, test }
    }

    /// This parser, then the zero-width check `test`, keeping this parser's value.
    fn expect<F>(self, test: F) -> (r: ThenLeft<Self, Expect<F>>)
        ensures
            r.l == self,
            r.r.test == test,
    {
        ThenLeft { l: self, r: Expect { test } }
    }

    /// This parser's value if it succeeds, else nothing.
    fn optional(self) -> (r: Optional<Self>)
        ensures
            r.parser == self,
    {
        Optional { parser: self }
    }

    /// This parser repeated until it fails.
    fn greedy(self) -> (r: Greedy<Self>)
        ensures
            r.parser == self,
    {
        Greedy { parser: self }
    }
}

} // verus!
