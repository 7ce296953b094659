use vstd::prelude::*;
use vstd::view::View as _;

use super::{Infallible, ParseResult, Parser, View};

verus! {

/// Every success of `p` consumes at least one character.
pub open spec fn consumes<P: Parser>(p: P) -> bool {
    forall|b: View, r: ParseResult<P::Output, P::Error>|
        #[trigger] p.parses(b, r) && r is Ok ==> b.start < r->Ok_0.0.start
}

/// Running `p` once per item, starting at `from`, yields `items` in order and
/// leaves the input at `to`.
pub open spec fn steps<P: Parser>(p: P, from: View, items: Seq<P::Output>, to: View) -> bool
    decreases items.len(),
{
    if items.len() == 0 {
        to == from
    } else {
        exists|mid: View|
            #[trigger] p.parses(from, Ok((mid, items[0]))) && mid.wf() && steps(p, mid, items.drop_first(), to)
    }
}

/// One more successful step extends a run of steps.
pub proof fn lemma_steps_push<P: Parser>(
    p: P,
    from: View,
    items: Seq<P::Output>,
    cur: View,
    next: View,
    x: P::Output,
)
    requires
        steps(p, from, items, cur),
        p.parses(cur, Ok((next, x))),
        next.wf(),
    ensures
        steps(p, from, items.push(x), next),
    decreases items.len(),
{
    if items.len() == 0 {
        assert(items.push(x).drop_first() =~= Seq::<P::Output>::empty());
        assert(steps(p, next, items.push(x).drop_first(), next));
        assert(p.parses(from, Ok((next, items.push(x)[0]))));
    } else {
        let mid = choose|mid: View|
            #[trigger] p.parses(from, Ok((mid, items[0]))) && mid.wf() && steps(p, mid, items.drop_first(), cur);
        lemma_steps_push(p, mid, items.drop_first(), cur, next, x);
        assert(items.push(x).drop_first() =~= items.drop_first().push(x));
        assert(p.parses(from, Ok((mid, items.push(x)[0]))));
    }
}

/// Repeats a parser until it fails, returning every value and the failure
/// that ended the run.
pub struct Greedy<P> {
    pub parser: P,
}

/// `parser`, repeated until it fails.
pub fn greedy<P>(parser: P) -> (p: Greedy<P>)
    ensures
        p.parser == parser,
{
    Greedy { parser }
}

impl<P: Parser> Parser for Greedy<P> {
    type Output = (Vec<P::Output>, P::Error);
    type Error = Infallible;

    open spec fn valid(&self) -> bool {
        self.parser.valid() && consumes(self.parser)
    }

    open spec fn parses(&self, buf: View, res: ParseResult<(Vec<P::Output>, P::Error), Infallible>) -> bool {
        match res {
            Ok((rest, (items, e))) => steps(self.parser, buf, items@, rest) && self.parser.parses(rest, Err(e)),
            Err(_) => false,
        }
    }

    fn parse(&self, buf: View) -> (res: ParseResult<(Vec<P::Output>, P::Error), Infallible>) {
        let ghost start = buf;
        let mut cur = buf;
        let mut items: Vec<P::Output> = Vec::new();
        assert(steps(self.parser, start, items@, cur));
        loop
            invariant
                self.valid(),
                start == buf,
                cur.wf(),
                super::is_rest(start, cur),
                steps(self.parser, start, items@, cur),
            decreases cur.end - cur.start,
        {
            let again = cur.clone_view();
            match self.parser.parse(cur) {
                Ok((next, x)) => {
                    proof {
                        lemma_steps_push(self.parser, start, items@, again, next, x);
                    }
                    items.push(x);
                    cur = next;
                },
                Err(e) => {
                    return Ok((again, (items, e)));
                },
            }
        }
    }
}

/// Repeats a parser while `test`, shown the values so far after each success,
/// asks for more. A failure of the parser fails the whole.
pub struct RepeatIf<P, F> {
    pub parser: P,
    pub test: F,
}

/// `parser`, repeated while `test` asks for more.
pub fn repeat_if<P, F>(parser: P, test: F) -> (p: RepeatIf<P, F>)
    ensures
        p.parser == parser,
        p.test == test,
{
    RepeatIf { parser, test }
}

/// `test`, shown the values `seen`, answered `answer`.
pub open spec fn said<T, F: Fn(&Vec<T>) -> bool>(test: F, seen: Seq<T>, answer: bool) -> bool {
    exists|v: &Vec<T>| v@ == seen && #[trigger] test.ensures((v,), answer)
}

/// `test` asked for more after each of the first `n` values of `items`, the
/// values seen each time being those parsed until then.
pub open spec fn asked_more<T, F: Fn(&Vec<T>) -> bool>(test: F, items: Seq<T>, n: int) -> bool {
    forall|k: int| 1 <= k <= n ==> #[trigger] said(test, items.take(k), true)
}

impl<P: Parser, F: Fn(&Vec<P::Output>) -> bool> Parser for RepeatIf<P, F> {
    type Output = Vec<P::Output>;
    type Error = P::Error;

    open spec fn valid(&self) -> bool {
        &&& self.parser.valid()
        &&& consumes(self.parser)
        &&& forall|v: &Vec<P::Output>| #[trigger] self.test.requires((v,))
    }

    open spec fn parses(&self, buf: View, res: ParseResult<Vec<P::Output>, P::Error>) -> bool {
        match res {
            Ok((rest, items)) => {
                &&& items@.len() > 0
                &&& steps(self.parser, buf, items@, rest)
                &&& asked_more(self.test, items@, items@.len() - 1)
                &&& said(self.test, items@, false)
            },
            Err(e) => exists|items: Seq<P::Output>, cur: View|
                #[trigger] steps(self.parser, buf, items, cur) && asked_more(self.test, items, items.len() as int)
                    && self.parser.parses(cur, Err(e)),
        }
    }

    fn parse(&self, buf: View) -> (res: ParseResult<Vec<P::Output>, P::Error>) {
        let ghost start = buf;
        let mut cur = buf;
        let mut items: Vec<P::Output> = Vec::new();
        assert(steps(self.parser, start, items@, cur));
        loop
            invariant
                self.valid(),
                start == buf,
                cur.wf(),
                super::is_rest(start, cur),
                steps(self.parser, start, items@, cur),
                asked_more(self.test, items@, items@.len() as int),
            decreases cur.end - cur.start,
        {
            let ghost before = cur;
            match self.parser.parse(cur) {
                Ok((next, x)) => {
                    proof {
                        lemma_steps_push(self.parser, start, items@, before, next, x);
                    }
                    let ghost old_items = items@;
                    items.push(x);
                    cur = next;
                    let more = (self.test)(&items);
                    assert forall|k: int| 1 <= k <= old_items.len() implies #[trigger] said(
                        self.test,
                        items@.take(k),
                        true,
                    ) by {
                        assert(items@.take(k) =~= old_items.take(k));
                        assert(said(self.test, old_items.take(k), true));
                    }
                    if !more {
                        assert(said(self.test, items@, false));
                        assert(items@.len() - 1 == old_items.len());
                        return Ok((cur, items));
                    }
                    assert(items@.take(items@.len() as int) =~= items@);
                    assert(said(self.test, items@.take(items@.len() as int), true));
                },
                Err(e) => {
                    return Err(e);
                },
            }
        }
    }
}

} // verus!
