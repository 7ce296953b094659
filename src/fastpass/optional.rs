use vstd::prelude::*;
use vstd::view::View as _;

use super::{Infallible, ParseResult, Parser, View};

verus! {

/// Never fails: the inner parser's value when it succeeds, else nothing and
/// the input left as it was.
pub struct Optional<P> {
    pub parser: P,
}

/// `parser`, made optional.
pub fn optional<P>(parser: P) -> (p: Optional<P>)
    ensures
        p.parser == parser,
{
    Optional { parser }
}

impl<P: Parser> Parser for Optional<P> {
    type Output = Option<P::Output>;
    type Error = Infallible;

    open spec fn valid(&self) -> bool {
        self.parser.valid()
    }

    open spec fn parses(&self, buf: View, res: ParseResult<Option<P::Output>, Infallible>) -> bool {
        match res {
            Ok((rest, Some(x))) => self.parser.parses(buf, Ok((rest, x))),
            Ok((rest, None)) => rest == buf && exists|e: P::Error| #[trigger] self.parser.parses(buf, Err(e)),
            Err(_) => false,
        }
    }

    fn parse(&self, buf: View) -> (res: ParseResult<Option<P::Output>, Infallible>) {
        let again = buf.clone_view();
        match self.parser.parse(buf) {
            Ok((rest, x)) => Ok((rest, Some(x))),
            Err(e) => {
                assert(self.parser.parses(again, Err(e)));
                Ok((again, None))
            },
        }
    }
}

} // verus!
