use vstd::prelude::*;
use vstd::view::View as _;

use super::{outcome, ParseResult, Parser, View};

verus! {

/// Where a parser's outcome leaves the input: its remaining window on
/// success, the window it started from on failure.
pub open spec fn resume_at<T, E>(buf: View, r: ParseResult<T, E>) -> View {
    match r {
        Ok((rest, _)) => rest,
        Err(_) => buf,
    }
}

/// A mapped outcome placed back at window `at`.
pub open spec fn attach<T, E>(out: Result<T, E>, at: View) -> ParseResult<T, E> {
    match out {
        Ok(t) => Ok((at, t)),
        Err(e) => Err(e),
    }
}

/// Maps the whole outcome, success or failure, through `f`.
pub struct MapBoth<P, F> {
    pub parser: P,
    pub f: F,
}

/// `parser` with its outcome mapped through `f`.
pub fn map<P, F>(parser: P, f: F) -> (p: MapBoth<P, F>)
    ensures
        p.parser == parser,
        p.f == f,
{
    MapBoth { parser, f }
}

impl<T, E2, P: Parser, F: Fn(Result<P::Output, P::Error>) -> Result<T, E2>> Parser for MapBoth<P, F> {
    type Output = T;
    type Error = E2;

    open spec fn valid(&self) -> bool {
        self.parser.valid() && forall|a: Result<P::Output, P::Error>| #[trigger] self.f.requires((a,))
    }

    open spec fn parses(&self, buf: View, res: ParseResult<T, E2>) -> bool {
        exists|inner: ParseResult<P::Output, P::Error>, out: Result<T, E2>|
            #[trigger] self.parser.parses(buf, inner) && #[trigger] self.f.ensures((outcome(inner),), out)
                && res == attach(out, resume_at(buf, inner))
    }

    fn parse(&self, buf: View) -> (res: ParseResult<T, E2>) {
        let again = buf.clone_view();
        let inner = self.parser.parse(buf);
        let ghost gi = inner;
        match inner {
            Ok((rest, x)) => {
                let out = (self.f)(Ok(x));
                assert(self.f.ensures((outcome(gi),), out));
                match out {
                    Ok(t) => Ok((rest, t)),
                    Err(e) => Err(e),
                }
            },
            Err(e) => {
                let out = (self.f)(Err(e));
                assert(self.f.ensures((outcome(gi),), out));
                match out {
                    Ok(t) => Ok((again, t)),
                    Err(e) => Err(e),
                }
            },
        }
    }
}

/// Maps a success value through `f`, which may turn it into a failure.
pub struct MapOk<P, F> {
    pub parser: P,
    pub f: F,
}

/// `parser` with its value mapped through `f`.
pub fn map_ok<P, F>(parser: P, f: F) -> (p: MapOk<P, F>)
    ensures
        p.parser == parser,
        p.f == f,
{
    MapOk { parser, f }
}

impl<T, P: Parser, F: Fn(P::Output) -> Result<T, P::Error>> Parser for MapOk<P, F> {
    type Output = T;
    type Error = P::Error;

    open spec fn valid(&self) -> bool {
        self.parser.valid() && forall|a: P::Output| #[trigger] self.f.requires((a,))
    }

    open spec fn parses(&self, buf: View, res: ParseResult<T, P::Error>) -> bool {
        exists|inner: ParseResult<P::Output, P::Error>|
            #[trigger] self.parser.parses(buf, inner) && match inner {
                Ok((rest, x)) => exists|out: Result<T, P::Error>|
                    #[trigger] self.f.ensures((x,), out) && res == attach(out, rest),
                Err(e) => res == Err::<(View, T), P::Error>(e),
            }
    }

    fn parse(&self, buf: View) -> (res: ParseResult<T, P::Error>) {
        let inner = self.parser.parse(buf);
        let ghost gi = inner;
        match inner {
            Ok((rest, x)) => {
                let out = (self.f)(x);
                let ghost go = out;
                let res = match out {
                    Ok(t) => Ok((rest, t)),
                    Err(e) => Err(e),
                };
                assert(self.f.ensures((x,), go) && res == attach(go, rest));
                assert(self.parser.parses(buf, gi));
                res
            },
            Err(e) => {
                assert(self.parser.parses(buf, gi));
                Err(e)
            },
        }
    }
}

/// Maps a failure through `f`, which may recover it into a value at the
/// position the parser started from.
pub struct MapErr<P, F> {
    pub parser: P,
    pub f: F,
}

/// `parser` with its failure mapped through `f`.
pub fn map_err<P, F>(parser: P, f: F) -> (p: MapErr<P, F>)
    ensures
        p.parser == parser,
        p.f == f,
{
    MapErr { parser, f }
}

impl<E2, P: Parser, F: Fn(P::Error) -> Result<P::Output, E2>> Parser for MapErr<P, F> {
    type Output = P::Output;
    type Error = E2;

    open spec fn valid(&self) -> bool {
        self.parser.valid() && forall|e: P::Error| #[trigger] self.f.requires((e,))
    }

    open spec fn parses(&self, buf: View, res: ParseResult<P::Output, E2>) -> bool {
        exists|inner: ParseResult<P::Output, P::Error>|
            #[trigger] self.parser.parses(buf, inner) && match inner {
                Ok((rest, x)) => res == Ok::<(View, P::Output), E2>((rest, x)),
                Err(e) => exists|out: Result<P::Output, E2>|
                    #[trigger] self.f.ensures((e,), out) && res == attach(out, buf),
            }
    }

    fn parse(&self, buf: View) -> (res: ParseResult<P::Output, E2>) {
        let again = buf.clone_view();
        let inner = self.parser.parse(buf);
        let ghost gi = inner;
        match inner {
            Ok((rest, x)) => {
                assert(self.parser.parses(again, gi));
                Ok((rest, x))
            },
            Err(e) => {
                let out = (self.f)(e);
                let ghost go = out;
                let res = match out {
                    Ok(t) => Ok((again, t)),
                    Err(e2) => Err(e2),
                };
                assert(self.f.ensures((e,), go) && res == attach(go, again));
                assert(self.parser.parses(again, gi));
                res
            },
        }
    }
}

} // verus!
