use vstd::prelude::*;
use vstd::view::View as _;

use super::map::resume_at;
use super::{outcome, ParseResult, Parser, View};

verus! {

/// Chooses, from the whole outcome, the parser that continues from where the
/// first one left the input (its start, on failure).
pub struct FlatMap<P, F> {
    pub parser: P,
    pub f: F,
}

/// `parser`, continued by what `f` builds from its outcome.
pub fn flatmap<P, F>(parser: P, f: F) -> (p: FlatMap<P, F>)
    ensures
        p.parser == parser,
        p.f == f,
{
    FlatMap { parser, f }
}

impl<P: Parser, Next: Parser, F: Fn(Result<P::Output, P::Error>) -> Next> Parser for FlatMap<P, F> {
    type Output = Next::Output;
    type Error = Next::Error;

    open spec fn valid(&self) -> bool {
        &&& self.parser.valid()
        &&& forall|a: Result<P::Output, P::Error>| #[trigger] self.f.requires((a,))
        &&& forall|a: Result<P::Output, P::Error>, q: Next| #[trigger] self.f.ensures((a,), q) ==> q.valid()
    }

    open spec fn parses(&self, buf: View, res: ParseResult<Next::Output, Next::Error>) -> bool {
        exists|inner: ParseResult<P::Output, P::Error>, q: Next|
            #[trigger] self.parser.parses(buf, inner) && #[trigger] self.f.ensures((outcome(inner),), q)
                && q.parses(resume_at(buf, inner), res)
    }

    fn parse(&self, buf: View) -> (res: ParseResult<Next::Output, Next::Error>) {
        let again = buf.clone_view();
        let inner = self.parser.parse(buf);
        let ghost gi = inner;
        match inner {
            Ok((rest, x)) => {
                let q = (self.f)(Ok(x));
                assert(self.f.ensures((outcome(gi),), q));
                q.parse(rest)
            },
            Err(e) => {
                let q = (self.f)(Err(e));
                assert(self.f.ensures((outcome(gi),), q));
                q.parse(again)
            },
        }
    }
}

/// Continues a success with the parser that `f` builds from its value.
pub struct FlatMapOk<P, F> {
    pub parser: P,
    pub f: F,
}

/// `parser`, continued on success by what `f` builds from its value.
pub fn flatmap_ok<P, F>(parser: P, f: F) -> (p: FlatMapOk<P, F>)
    ensures
        p.parser == parser,
        p.f == f,
{
    FlatMapOk { parser, f }
}

impl<P: Parser, Next: Parser<Error = P::Error>, F: Fn(P::Output) -> Next> Parser for FlatMapOk<P, F> {
    type Output = Next::Output;
    type Error = P::Error;

    open spec fn valid(&self) -> bool {
        &&& self.parser.valid()
        &&& forall|a: P::Output| #[trigger] self.f.requires((a,))
        &&& forall|a: P::Output, q: Next| #[trigger] self.f.ensures((a,), q) ==> q.valid()
    }

    open spec fn parses(&self, buf: View, res: ParseResult<Next::Output, P::Error>) -> bool {
        exists|inner: ParseResult<P::Output, P::Error>|
            #[trigger] self.parser.parses(buf, inner) && match inner {
                Ok((rest, x)) => exists|q: Next| #[trigger] self.f.ensures((x,), q) && q.parses(rest, res),
                Err(e) => res == Err::<(View, Next::Output), P::Error>(e),
            }
    }

    fn parse(&self, buf: View) -> (res: ParseResult<Next::Output, P::Error>) {
        let inner = self.parser.parse(buf);
        let ghost gi = inner;
        match inner {
            Ok((rest, x)) => {
                let ghost grest = rest;
                let q = (self.f)(x);
                let res = q.parse(rest);
                assert(self.f.ensures((x,), q) && q.parses(grest, res));
                assert(self.parser.parses(buf, gi));
                res
            },
            Err(e) => {
                assert(self.parser.parses(buf, gi));
                Err(e)
            },
        }
    }
}

/// Recovers a failure with the parser that `f` builds from the error, run
/// from the position the first parser started at.
pub struct FlatMapErr<P, F> {
    pub parser: P,
    pub f: F,
}

/// `parser`, recovered on failure by what `f` builds from its error.
pub fn flatmap_err<P, F>(parser: P, f: F) -> (p: FlatMapErr<P, F>)
    ensures
        p.parser == parser,
        p.f == f,
{
    FlatMapErr { parser, f }
}

impl<P: Parser, Next: Parser<Output = P::Output>, F: Fn(P::Error) -> Next> Parser for FlatMapErr<P, F> {
    type Output = P::Output;
    type Error = Next::Error;

    open spec fn valid(&self) -> bool {
        &&& self.parser.valid()
        &&& forall|e: P::Error| #[trigger] self.f.requires((e,))
        &&& forall|e: P::Error, q: Next| #[trigger] self.f.ensures((e,), q) ==> q.valid()
    }

    open spec fn parses(&self, buf: View, res: ParseResult<P::Output, Next::Error>) -> bool {
        exists|inner: ParseResult<P::Output, P::Error>|
            #[trigger] self.parser.parses(buf, inner) && match inner {
                Ok((rest, x)) => res == Ok::<(View, P::Output), Next::Error>((rest, x)),
                Err(e) => exists|q: Next| #[trigger] self.f.ensures((e,), q) && q.parses(buf, res),
            }
    }

    fn parse(&self, buf: View) -> (res: ParseResult<P::Output, Next::Error>) {
        let again = buf.clone_view();
        let inner = self.parser.parse(buf);
        let ghost gi = inner;
        match inner {
            Ok((rest, x)) => {
                assert(self.parser.parses(again, gi));
                Ok((rest, x))
            },
            Err(e) => {
                let q = (self.f)(e);
                let res = q.parse(again);
                assert(self.f.ensures((e,), q) && q.parses(again, res));
                assert(self.parser.parses(again, gi));
                res
            },
        }
    }
}

} // verus!
