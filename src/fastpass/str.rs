use vstd::prelude::*;
use vstd::view::View as _;
use vstd::string::StrSliceExecFns;

use super::{Infallible, ParseResult, Parser, View};

verus! {

/// `n` is how far `lit` and `text` agree from their first character on.
pub open spec fn agree_len(lit: Seq<char>, text: Seq<char>, n: int) -> bool {
    &&& 0 <= n <= lit.len()
    &&& n <= text.len()
    &&& forall|j: int| 0 <= j < n ==> lit[j] == text[j]
    &&& n == lit.len() || n == text.len() || lit[n] != text[n]
}

/// A literal matches when it is a prefix of the input. On a mismatch the error
/// holds the input advanced to the first character that differs, and the literal.
impl<'a> Parser for &'a str {
    type Output = View;
    type Error = (View, &'a str);

    open spec fn valid(&self) -> bool {
        true
    }

    open spec fn parses(&self, buf: View, r: ParseResult<View, (View, &'a str)>) -> bool {
        exists|n: int|
            agree_len(self@, buf.spec_str(), n) && r == if n == self@.len() {
                Ok::<(View, View), (View, &'a str)>((buf.skip(n), buf.take(n)))
            } else {
                Err((buf.skip(n), *self))
            }
    }

    fn parse(&self, buf: View) -> (r: ParseResult<View, (View, &'a str)>) {
        let lit_len = self.unicode_len();
        let avail = buf.char_len();
        let mut n: usize = 0;
        while n < lit_len && n < avail && self.get_char(n) == buf.char_at(n)
            invariant
                lit_len == self@.len(),
                avail == buf.len(),
                buf.wf(),
                n <= lit_len,
                n <= avail,
                forall|j: int| 0 <= j < n ==> self@[j] == buf.spec_str()[j],
            decreases lit_len - n,
        {
            n += 1;
        }
        let ghost gn = n as int;
        assert(agree_len(self@, buf.spec_str(), gn));
        if n == lit_len {
            Ok((buf.sub_view(n..avail), buf.sub_view(0..n)))
        } else {
            Err((buf.sub_view(n..avail), *self))
        }
    }
}

/// A literal succeeds exactly when it is a prefix of the input, and then
/// consumes just itself.
pub proof fn lemma_literal<'a>(lit: &'a str, buf: View, r: ParseResult<View, (View, &'a str)>)
    requires
        buf.wf(),
        lit.parses(buf, r),
    ensures
        r is Ok <==> (lit@.len() <= buf.len() && buf.spec_str().take(lit@.len() as int) == lit@),
        r is Ok ==> r->Ok_0.0 == buf.skip(lit@.len() as int),
        r is Err ==> r->Err_0.0 == buf.skip(r->Err_0.0.start - buf.start),
{
    let n = choose|n: int|
        agree_len(lit@, buf.spec_str(), n) && r == if n == lit@.len() {
            Ok::<(View, View), (View, &'a str)>((buf.skip(n), buf.take(n)))
        } else {
            Err((buf.skip(n), lit))
        };
    if n == lit@.len() {
        assert(buf.spec_str().take(lit@.len() as int) =~= lit@);
    } else if n < buf.spec_str().len() && lit@.len() <= buf.len() {
        assert(buf.spec_str().take(lit@.len() as int)[n] == buf.spec_str()[n]);
    }
}

/// Consumes characters while a predicate, given the text captured so far and
/// the next character, accepts them. Never fails; may capture nothing.
pub struct CaptureWhile<F: Fn(&str, char) -> bool>(pub F);

impl<F: Fn(&str, char) -> bool> CaptureWhile<F> {
    /// Wraps a predicate that accepts every input.
    pub fn new(f: F) -> (r: CaptureWhile<F>)
        requires
            forall|s: &str, c: char| #[trigger] f.requires((s, c)),
        ensures
            r.valid(),
            r.0 == f,
    {
        CaptureWhile(f)
    }

    /// Splits `buf` into the captured window and what follows it.
    pub fn capture(&self, buf: View) -> (r: (View, View))
        requires
            self.valid(),
            buf.wf(),
        ensures
            exists|n: int| captures(self.0, buf, n) && r == (buf.skip(n), buf.take(n)),
    {
        let len = buf.char_len();
        let mut i: usize = 0;
        while i < len
            invariant
                self.valid(),
                buf.wf(),
                len == buf.len(),
                i <= len,
                forall|j: int| 0 <= j < i ==> #[trigger] answered(self.0, buf, j, true),
            decreases len - i,
        {
            let c = buf.char_at(i);
            let so_far = buf.sub_view(0..i);
            let s = so_far.as_str();
            assert(s@ == buf.spec_str().take(i as int));
            let go_on = (self.0)(s, c);
            if !go_on {
                assert(answered(self.0, buf, i as int, false));
                let ghost n = i as int;
                assert(captures(self.0, buf, n));
                return (buf.sub_view(i..len), buf.sub_view(0..i));
            }
            assert(answered(self.0, buf, i as int, true));
            i += 1;
        }
        let ghost n = len as int;
        assert(captures(self.0, buf, n));
        (buf.sub_view(len..len), buf.sub_view(0..len))
    }
}

/// The predicate answered `answer` for the `j`th character of `buf`.
pub open spec fn answered<F: Fn(&str, char) -> bool>(f: F, buf: View, j: int, answer: bool) -> bool {
    exists|s: &str| s@ == buf.spec_str().take(j) && #[trigger] f.ensures((s, buf.spec_str()[j]), answer)
}

/// `n` characters are captured: each before was accepted, and the next, if any, refused.
pub open spec fn captures<F: Fn(&str, char) -> bool>(f: F, buf: View, n: int) -> bool {
    &&& 0 <= n <= buf.len()
    &&& forall|j: int| 0 <= j < n ==> #[trigger] answered(f, buf, j, true)
    &&& n == buf.len() || answered(f, buf, n, false)
}

impl<F: Fn(&str, char) -> bool> Parser for CaptureWhile<F> {
    type Output = View;
    type Error = Infallible;

    open spec fn valid(&self) -> bool {
        forall|s: &str, c: char| #[trigger] self.0.requires((s, c))
    }

    open spec fn parses(&self, buf: View, r: ParseResult<View, Infallible>) -> bool {
        exists|n: int| captures(self.0, buf, n) && r == Ok::<(View, View), Infallible>((buf.skip(n), buf.take(n)))
    }

    fn parse(&self, buf: View) -> (r: ParseResult<View, Infallible>) {
        let (rest, captured) = self.capture(buf);
        Ok((rest, captured))
    }
}

} // verus!
