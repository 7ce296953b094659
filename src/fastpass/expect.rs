use vstd::prelude::*;
use vstd::view::View as _;

use super::{ParseResult, Parser, View};

verus! {

/// A zero-width check: fails with the error the test returns, else succeeds
/// without consuming anything.
pub struct Expect<F> {
    pub test: F,
}

/// A zero-width check by `test`.
pub fn expect<E, F: Fn(View) -> Option<E>>(test: F) -> (p: Expect<F>)
    ensures
        p.test == test,
{
    Expect { test }
}

impl<E, F: Fn(View) -> Option<E>> Parser for Expect<F> {
    type Output = ();
    type Error = E;

    open spec fn valid(&self) -> bool {
        forall|v: View| #[trigger] self.test.requires((v,))
    }

    open spec fn parses(&self, buf: View, res: ParseResult<(), E>) -> bool {
        exists|o: Option<E>|
            #[trigger] self.test.ensures((buf,), o) && res == match o {
                None => Ok::<(View, ()), E>((buf, ())),
                Some(e) => Err(e),
            }
    }

    fn parse(&self, buf: View) -> (res: ParseResult<(), E>) {
        let again = buf.clone_view();
        let o = (self.test)(buf);
        assert(self.test.ensures((again,), o));
        match o {
            None => Ok((again, ())),
            Some(e) => Err(e),
        }
    }
}

} // verus!
