use vstd::prelude::*;
use vstd::view::View as _;

use super::{rest_ok, Either, ParseResult, Parser, View};

verus! {

/// Runs `l`, then `r` on what `l` left.
pub struct Then<L, R> {
    pub l: L,
    pub r: R,
}

/// `l`, then `r`.
pub fn then<L, R>(l: L, r: R) -> (p: Then<L, R>)
    ensures
        p.l == l,
        p.r == r,
{
    Then { l, r }
}

impl<L: Parser, R: Parser> Parser for Then<L, R> {
    type Output = (L::Output, R::Output);
    type Error = Either<L::Error, R::Error>;

    open spec fn valid(&self) -> bool {
        self.l.valid() && self.r.valid()
    }

    open spec fn parses(&self, buf: View, res: ParseResult<(L::Output, R::Output), Either<L::Error, R::Error>>) -> bool {
        match res {
            Ok(p) => exists|mid: View|
                #[trigger] self.l.parses(buf, Ok((mid, p.1.0))) && mid.wf() && self.r.parses(mid, Ok((p.0, p.1.1))),
            Err(Either::L(e)) => self.l.parses(buf, Err(e)),
            Err(Either::R(e)) => exists|mid: View, x: L::Output|
                #[trigger] self.l.parses(buf, Ok((mid, x))) && mid.wf() && self.r.parses(mid, Err(e)),
        }
    }

    fn parse(&self, buf: View) -> (res: ParseResult<(L::Output, R::Output), Either<L::Error, R::Error>>) {
        let first = self.l.parse(buf);
        match first {
            Err(e) => Err(Either::L(e)),
            Ok((mid, x)) => {
                let ghost m = mid;
                let ghost gx = x;
                let second = self.r.parse(mid);
                match second {
                    Err(e) => {
                        let res: ParseResult<(L::Output, R::Output), Either<L::Error, R::Error>> = Err(Either::R(e));
                        assert(self.parses(buf, res));
                        res
                    },
                    Ok((rest, y)) => {
                        let res: ParseResult<(L::Output, R::Output), Either<L::Error, R::Error>> = Ok((rest, (x, y)));
                        let ghost p = res->Ok_0;
                        assert(p.1.0 == gx);
                        assert(self.l.parses(buf, Ok((m, p.1.0))));
                        assert(exists|mid: View| #[trigger] self.l.parses(buf, Ok((mid, p.1.0))) && mid.wf() && self.r.parses(mid, Ok((p.0, p.1.1))));
                        assert(self.parses(buf, res));
                        res
                    },
                }
            },
        }
    }
}

} // verus!

verus! {

/// Runs `l`, then `r` on what `l` left, and keeps `l`'s value.
pub struct ThenLeft<L, R> {
    pub l: L,
    pub r: R,
}

/// `l`, then `r`, keeping `l`'s value.
pub fn then_left<L, R>(l: L, r: R) -> (p: ThenLeft<L, R>)
    ensures
        p.l == l,
        p.r == r,
{
    ThenLeft { l, r }
}

impl<L: Parser, R: Parser> Parser for ThenLeft<L, R> {
    type Output = L::Output;
    type Error = Either<L::Error, R::Error>;

    open spec fn valid(&self) -> bool {
        self.l.valid() && self.r.valid()
    }

    open spec fn parses(&self, buf: View, res: ParseResult<L::Output, Either<L::Error, R::Error>>) -> bool {
        match res {
            Ok((rest, x)) => exists|mid: View, y: R::Output|
                #[trigger] self.l.parses(buf, Ok((mid, x))) && mid.wf() && #[trigger] self.r.parses(mid, Ok((rest, y))),
            Err(Either::L(e)) => self.l.parses(buf, Err(e)),
            Err(Either::R(e)) => exists|mid: View, x: L::Output|
                #[trigger] self.l.parses(buf, Ok((mid, x))) && mid.wf() && self.r.parses(mid, Err(e)),
        }
    }

    fn parse(&self, buf: View) -> (res: ParseResult<L::Output, Either<L::Error, R::Error>>) {
        match self.l.parse(buf) {
            Err(e) => Err(Either::L(e)),
            Ok((mid, x)) => {
                let ghost m = mid;
                let ghost gx = x;
                match self.r.parse(mid) {
                    Err(e) => {
                        assert(self.l.parses(buf, Ok((m, gx))));
                        Err(Either::R(e))
                    },
                    Ok((rest, y)) => {
                        let res: ParseResult<L::Output, Either<L::Error, R::Error>> = Ok((rest, x));
                        let ghost p = res->Ok_0;
                        assert(self.l.parses(buf, Ok((m, p.1))) && self.r.parses(m, Ok((p.0, y))));
                        assert(exists|mid: View, y2: R::Output|
                            #[trigger] self.l.parses(buf, Ok((mid, p.1))) && mid.wf() && #[trigger] self.r.parses(mid, Ok((p.0, y2))));
                        res
                    },
                }
            },
        }
    }
}

/// Runs `l`, then `r` on what `l` left, and keeps `r`'s value.
pub struct ThenRight<L, R> {
    pub l: L,
    pub r: R,
}

/// `l`, then `r`, keeping `r`'s value.
pub fn then_right<L, R>(l: L, r: R) -> (p: ThenRight<L, R>)
    ensures
        p.l == l,
        p.r == r,
{
    ThenRight { l, r }
}

impl<L: Parser, R: Parser> Parser for ThenRight<L, R> {
    type Output = R::Output;
    type Error = Either<L::Error, R::Error>;

    open spec fn valid(&self) -> bool {
        self.l.valid() && self.r.valid()
    }

    open spec fn parses(&self, buf: View, res: ParseResult<R::Output, Either<L::Error, R::Error>>) -> bool {
        match res {
            Ok((rest, y)) => exists|mid: View, x: L::Output|
                #[trigger] self.l.parses(buf, Ok((mid, x))) && mid.wf() && #[trigger] self.r.parses(mid, Ok((rest, y))),
            Err(Either::L(e)) => self.l.parses(buf, Err(e)),
            Err(Either::R(e)) => exists|mid: View, x: L::Output|
                #[trigger] self.l.parses(buf, Ok((mid, x))) && mid.wf() && self.r.parses(mid, Err(e)),
        }
    }

    fn parse(&self, buf: View) -> (res: ParseResult<R::Output, Either<L::Error, R::Error>>) {
        match self.l.parse(buf) {
            Err(e) => Err(Either::L(e)),
            Ok((mid, x)) => {
                let ghost m = mid;
                let ghost gx = x;
                match self.r.parse(mid) {
                    Err(e) => {
                        assert(self.l.parses(buf, Ok((m, gx))));
                        Err(Either::R(e))
                    },
                    Ok((rest, y)) => {
                        let res: ParseResult<R::Output, Either<L::Error, R::Error>> = Ok((rest, y));
                        let ghost p = res->Ok_0;
                        assert(self.l.parses(buf, Ok((m, gx))) && self.r.parses(m, Ok((p.0, p.1))));
                        assert(exists|mid: View, x2: L::Output|
                            #[trigger] self.l.parses(buf, Ok((mid, x2))) && mid.wf() && #[trigger] self.r.parses(mid, Ok((p.0, p.1))));
                        res
                    },
                }
            },
        }
    }
}

} // verus!
