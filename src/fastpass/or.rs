use vstd::prelude::*;
use vstd::view::View as _;

use super::{rest_ok, Either, ParseResult, Parser, View};

verus! {

/// Tries `l`; where it fails, tries `r` from the same position.
pub struct Or<L, R> {
    pub l: L,
    pub r: R,
}

/// `l`, or else `r`.
pub fn or<L, R>(l: L, r: R) -> (p: Or<L, R>)
    ensures
        p.l == l,
        p.r == r,
{
    Or { l, r }
}

impl<L: Parser, R: Parser> Parser for Or<L, R> {
    type Output = Either<L::Output, R::Output>;
    type Error = (L::Error, R::Error);

    open spec fn valid(&self) -> bool {
        self.l.valid() && self.r.valid()
    }

    open spec fn parses(
        &self,
        buf: View,
        res: ParseResult<Either<L::Output, R::Output>, (L::Error, R::Error)>,
    ) -> bool {
        match res {
            Ok((rest, Either::L(x))) => self.l.parses(buf, Ok((rest, x))),
            Ok((rest, Either::R(y))) => exists|e: L::Error|
                #[trigger] self.l.parses(buf, Err(e)) && self.r.parses(buf, Ok((rest, y))),
            Err((e1, e2)) => self.l.parses(buf, Err(e1)) && self.r.parses(buf, Err(e2)),
        }
    }

    fn parse(&self, buf: View) -> (res: ParseResult<
        Either<L::Output, R::Output>,
        (L::Error, R::Error),
    >) {
        let again = buf.clone_view();
        match self.l.parse(buf) {
            Ok((rest, x)) => Ok((rest, Either::L(x))),
            Err(e1) => {
                let ghost ge = e1;
                assert(self.l.parses(again, Err(ge)));
                match self.r.parse(again) {
                    Ok((rest, y)) => Ok((rest, Either::R(y))),
                    Err(e2) => Err((e1, e2)),
                }
            },
        }
    }
}

} // verus!
