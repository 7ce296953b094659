//! The grammar: whitespace, comments, symbols, booleans and s-expressions,
//! read into [`Value`] trees.

use std::rc::Rc;
use vstd::prelude::*;
use vstd::view::View as _;

use crate::fastpass::{CaptureWhile, Either, Parser, View};

pub mod reprint;
use crate::interpreter::values::{deep_seq, view_values, Datum, Value};

verus! {

pub open spec fn is_space(c: char) -> bool {
    c == ' ' || c == '\r' || c == '\n' || c == '\t'
}

/// Characters that end a symbol.
pub open spec fn is_illegal(c: char) -> bool {
    is_space(c) || c == '(' || c == ')' || c == ';'
}

/// How many characters from position `i` of `t` on satisfy `p`.
pub open spec fn run(t: Seq<char>, i: int, p: spec_fn(char) -> bool) -> int
    decreases t.len() - i,
{
    if 0 <= i < t.len() && p(t[i]) {
        1 + run(t, i + 1, p)
    } else {
        0
    }
}

pub open spec fn space_run(t: Seq<char>, i: int) -> int {
    run(t, i, |c: char| is_space(c))
}

pub open spec fn symbol_run(t: Seq<char>, i: int) -> int {
    run(t, i, |c: char| !is_illegal(c))
}

/// The length of a comment at `i`: `;` and the rest of its line, or nothing.
pub open spec fn comment_len(t: Seq<char>, i: int) -> int {
    if 0 <= i < t.len() && t[i] == ';' {
        1 + run(t, i + 1, |c: char| c != '\n')
    } else {
        0
    }
}

/// How much whitespace and how many comments follow position `i`.
pub open spec fn swallow_len(t: Seq<char>, i: int) -> int
    decreases t.len() - i,
{
    let w = space_run(t, i);
    let c = comment_len(t, i);
    if 0 <= i && 0 < w && i + w <= t.len() {
        w + swallow_len(t, i + w)
    } else if 0 <= i && 0 < c && i + c <= t.len() {
        c + swallow_len(t, i + c)
    } else {
        0
    }
}

/// A run never reaches past the end of the text.
pub proof fn lemma_run_bounds(t: Seq<char>, i: int, p: spec_fn(char) -> bool)
    requires
        0 <= i <= t.len(),
    ensures
        0 <= run(t, i, p) <= t.len() - i,
    decreases t.len() - i,
{
    if i < t.len() && p(t[i]) {
        lemma_run_bounds(t, i + 1, p);
    }
}

/// `n` characters from `i` on satisfy `p` and the next does not: that is the run.
pub proof fn lemma_run_is(t: Seq<char>, i: int, p: spec_fn(char) -> bool, n: int)
    requires
        0 <= i,
        0 <= n,
        i + n <= t.len(),
        forall|j: int| i <= j < i + n ==> p(t[j]),
        i + n == t.len() || !p(t[i + n]),
    ensures
        run(t, i, p) == n,
    decreases n,
{
    if n > 0 {
        lemma_run_is(t, i + 1, p, n - 1);
    }
}

/// Swallowing never reaches past the end of the text.
pub proof fn lemma_swallow_bounds(t: Seq<char>, i: int)
    requires
        0 <= i <= t.len(),
    ensures
        0 <= swallow_len(t, i) <= t.len() - i,
    decreases t.len() - i,
{
    let w = space_run(t, i);
    let c = comment_len(t, i);
    lemma_run_bounds(t, i, |c: char| is_space(c));
    if i < t.len() {
        lemma_run_bounds(t, i + 1, |c: char| c != '\n');
    }
    if 0 < w {
        lemma_swallow_bounds(t, i + w);
    } else if 0 < c {
        lemma_swallow_bounds(t, i + c);
    }
}

} // verus!

verus! {

/// A capture whose predicate decides by the character alone, as `p` does,
/// covers exactly the run of `p` from the window's start.
pub proof fn lemma_capture_run<F: Fn(&str, char) -> bool>(
    f: F,
    buf: View,
    n: int,
    p: spec_fn(char) -> bool,
)
    requires
        buf.wf(),
        crate::fastpass::str::captures(f, buf, n),
        forall|s: &str, c: char, b: bool| #[trigger] f.ensures((s, c), b) ==> b == p(c),
    ensures
        run(buf.upto(), buf.start as int, p) == n,
{
    let t = buf.upto();
    assert forall|j: int| buf.start <= j < buf.start + n implies p(t[j]) by {
        assert(crate::fastpass::str::answered(f, buf, j - buf.start, true));
        assert(buf.spec_str()[j - buf.start] == t[j]);
    }
    if buf.start + n < t.len() {
        assert(crate::fastpass::str::answered(f, buf, n, false));
        assert(buf.spec_str()[n] == t[buf.start + n]);
    }
    lemma_run_is(t, buf.start as int, p, n);
}

fn illegal_char(c: char) -> (r: bool)
    ensures
        r == is_illegal(c),
{
    c == ' ' || c == '\r' || c == '\n' || c == '\t' || c == '(' || c == ')' || c == ';'
}

/// Expected whitespace.
#[derive(Debug)]
pub struct NoWhitespace(pub View);

/// Expected `#t` or `#f`.
#[derive(Debug)]
pub struct NoBool(pub View);

/// Expected a symbol.
#[derive(Debug)]
pub struct NoSymbol(pub View);

/// Expected `(`.
#[derive(Debug)]
pub struct NoSExpr(pub View);

/// Missing `)`: an s-expression is not closed.
#[derive(Debug)]
pub struct UnclosedSExpr(pub View);

/// Input is left over after the last expression.
#[derive(Debug)]
pub struct UnexpectedToken(pub View);

/// A symbol: the longest run of characters that are not whitespace, parentheses or `;`.
pub fn symbol(buf: View) -> (r: Result<(View, Value), NoSymbol>)
    requires
        buf.wf(),
    ensures
        r is Ok ==> r->Ok_0.0.wf(),
        ({
            let k = symbol_run(buf.upto(), buf.start as int);
            if k > 0 {
                &&& r is Ok
                &&& r->Ok_0.0 == buf.skip(k)
                &&& r->Ok_0.1.deep() == Datum::Symbol(buf.spec_str().take(k))
            } else {
                r is Err && r->Err_0.0 == buf
            }
        }),
{
    let p = CaptureWhile::new(|_s: &str, c: char| -> (b: bool) ensures b == !is_illegal(c) { !illegal_char(c) });
    let ghost b0 = buf;
    let (rest, cap) = p.capture(buf);
    proof {
        let n = choose|n: int| crate::fastpass::str::captures(p.0, b0, n) && (rest, cap) == (b0.skip(n), b0.take(n));
        lemma_capture_run(p.0, b0, n, |c: char| !is_illegal(c));
        lemma_run_bounds(b0.upto(), b0.start as int, |c: char| !is_illegal(c));
        assert(cap.spec_str() =~= b0.spec_str().take(n));
        assert(b0.skip(0) == b0);
    }
    if cap.char_len() == 0 {
        Err(NoSymbol(rest))
    } else {
        let text = cap.as_str().to_owned();
        let v = Value::Symbol(text);
        assert(v.deep() == Datum::Symbol(text@));
        Ok((rest, v))
    }
}

/// One or more whitespace characters.
pub fn whitespace(buf: View) -> (r: Result<(View, ()), NoWhitespace>)
    requires
        buf.wf(),
    ensures
        ({
            let k = space_run(buf.upto(), buf.start as int);
            if k > 0 {
                r is Ok && r->Ok_0.0 == buf.skip(k)
            } else {
                r is Err && r->Err_0.0 == buf
            }
        }),
{
    let p = CaptureWhile::new(|_s: &str, c: char| -> (b: bool) ensures b == is_space(c) { c == ' ' || c == '\r' || c == '\n' || c == '\t' });
    let ghost b0 = buf;
    let (rest, cap) = p.capture(buf);
    proof {
        let n = choose|n: int| crate::fastpass::str::captures(p.0, b0, n) && (rest, cap) == (b0.skip(n), b0.take(n));
        lemma_capture_run(p.0, b0, n, |c: char| is_space(c));
    }
    if cap.char_len() == 0 {
        Err(NoWhitespace(rest))
    } else {
        Ok((rest, ()))
    }
}

/// A comment: `;` and the rest of its line. Where there is none, nothing is consumed.
pub fn comment(buf: View) -> (r: Result<(View, ()), crate::fastpass::Infallible>)
    requires
        buf.wf(),
    ensures
        r is Ok,
        r->Ok_0.0 == buf.skip(comment_len(buf.upto(), buf.start as int)),
{
    let rest_of_line = CaptureWhile::new(|_s: &str, c: char| -> (b: bool) ensures b == (c != '\n') { c != '\n' });
    let again = buf.clone_view();
    let ghost b0 = buf;
    let res = Parser::parse(&";", buf);
    proof {
        reveal_strlit(";");
        let n = choose|n: int| crate::fastpass::str::agree_len(";"@, b0.spec_str(), n) && res == if n == ";"@.len() {
            Ok::<(View, View), (View, &str)>((b0.skip(n), b0.take(n)))
        } else {
            Err((b0.skip(n), ";"))
        };
        if b0.start < b0.end {
            assert(b0.spec_str()[0] == b0.upto()[b0.start as int]);
        }
        assert(b0.skip(0) == b0);
    }
    match res {
        Ok((mid, _)) => {
            let ghost m0 = mid;
            let (rest, _) = rest_of_line.capture(mid);
            proof {
                let m = choose|m: int| crate::fastpass::str::captures(rest_of_line.0, m0, m) && rest == m0.skip(m);
                lemma_capture_run(rest_of_line.0, m0, m, |c: char| c != '\n');
                assert(m0.upto() == b0.upto());
            }
            Ok((rest, ()))
        },
        Err(_) => Ok((again, ())),
    }
}

} // verus!

verus! {

/// Where and how reading an expression failed (positions in the source text).
pub enum Syntax {
    NoSExpr(int),
    Unclosed(int),
}

/// Where and how reading a whole program failed.
pub enum ProgramError {
    Unclosed(int),
    Unexpected(int),
}

/// `t[i]` and `t[i + 1]` are `#` and `b`.
pub open spec fn at_hash(t: Seq<char>, i: int, b: char) -> bool {
    0 <= i && i + 2 <= t.len() && t[i] == '#' && t[i + 1] == b
}

/// An s-expression at `i`: `(`, whitespace and comments, expressions, `)`.
/// The position just after the `)`, and the list.
pub open spec fn sexpr_spec(t: Seq<char>, i: int) -> Result<(int, Datum), Syntax>
    decreases t.len() - i, 0int,
{
    if 0 <= i < t.len() && t[i] == '(' {
        let o = i + 1 + swallow_len(t, i + 1);
        if i < o <= t.len() {
            let (q, xs, e) = items_spec(t, o);
            match e {
                Syntax::Unclosed(p) => Err(Syntax::Unclosed(p)),
                Syntax::NoSExpr(_) => if 0 <= q < t.len() && t[q] == ')' {
                    Ok((q + 1, Datum::List(xs)))
                } else {
                    Err(Syntax::Unclosed(q))
                },
            }
        } else {
            Err(Syntax::NoSExpr(i))
        }
    } else {
        Err(Syntax::NoSExpr(i))
    }
}

/// One expression read at `i`, and the whitespace and comments after it: the
/// position reached and the expression, or the failure. A boolean is tried
/// first, then a symbol, then an s-expression.
pub open spec fn expr_spec(t: Seq<char>, i: int) -> Result<(int, Datum), Syntax>
    decreases t.len() - i, 1int,
{
    if !(0 <= i <= t.len()) {
        Err(Syntax::NoSExpr(i))
    } else if at_hash(t, i, 't') {
        Ok((i + 2 + swallow_len(t, i + 2), Datum::Bool(true)))
    } else if at_hash(t, i, 'f') {
        Ok((i + 2 + swallow_len(t, i + 2), Datum::Bool(false)))
    } else if symbol_run(t, i) > 0 {
        let k = symbol_run(t, i);
        Ok((i + k + swallow_len(t, i + k), Datum::Symbol(t.subrange(i, i + k))))
    } else {
        match sexpr_spec(t, i) {
            Ok((j, d)) => Ok((j + swallow_len(t, j), d)),
            Err(e) => Err(e),
        }
    }
}

/// Expressions read one after another from `i` until one fails: the position
/// reached, the expressions, and the failure that ended the run.
pub open spec fn items_spec(t: Seq<char>, i: int) -> (int, Seq<Datum>, Syntax)
    decreases t.len() - i, 2int,
{
    match expr_spec(t, i) {
        Err(e) => (i, Seq::empty(), e),
        Ok((j, d)) => if i < j <= t.len() {
            let (q, xs, e) = items_spec(t, j);
            (q, seq![d] + xs, e)
        } else {
            (i, Seq::empty(), Syntax::NoSExpr(i))
        },
    }
}

/// A whole program from `i` on: leading whitespace and comments, then
/// expressions up to the end of the text.
pub open spec fn program_spec(t: Seq<char>, i: int) -> Result<Seq<Datum>, ProgramError> {
    let o = i + swallow_len(t, i);
    let (q, xs, e) = items_spec(t, o);
    match e {
        Syntax::Unclosed(p) => Err(ProgramError::Unclosed(p)),
        Syntax::NoSExpr(_) => if q == t.len() {
            Ok(xs)
        } else {
            Err(ProgramError::Unexpected(q))
        },
    }
}

/// A successful read moves forward and stays within the text; a run of
/// reads ends within the text.
pub proof fn lemma_expr_bounds(t: Seq<char>, i: int)
    requires
        0 <= i <= t.len(),
    ensures
        expr_spec(t, i) is Ok ==> i < expr_spec(t, i)->Ok_0.0 <= t.len(),
        sexpr_spec(t, i) is Ok ==> i < sexpr_spec(t, i)->Ok_0.0 <= t.len(),
        items_spec(t, i).0 >= i,
        items_spec(t, i).0 <= t.len(),
    decreases t.len() - i,
{
    lemma_run_bounds(t, i, |c: char| !is_illegal(c));
    if at_hash(t, i, 't') || at_hash(t, i, 'f') {
        lemma_swallow_bounds(t, i + 2);
    } else if symbol_run(t, i) > 0 {
        lemma_swallow_bounds(t, i + symbol_run(t, i));
    } else if i < t.len() && t[i] == '(' {
        lemma_swallow_bounds(t, i + 1);
        let o = i + 1 + swallow_len(t, i + 1);
        lemma_expr_bounds(t, o);
        let q = items_spec(t, o).0;
        if q < t.len() {
            lemma_swallow_bounds(t, q + 1);
        }
        assert(sexpr_spec(t, i) is Ok ==> sexpr_spec(t, i)->Ok_0.0 == q + 1);
    }
    if let Ok((j, d)) = expr_spec(t, i) {
        if i < j <= t.len() {
            lemma_expr_bounds(t, j);
        }
    }
}

} // verus!

verus! {

/// Whitespace and comments, as many as follow.
pub fn swallow(buf: View) -> (r: View)
    requires
        buf.wf(),
    ensures
        r == buf.skip(swallow_len(buf.upto(), buf.start as int)),
        r.wf(),
{
    let ghost t = buf.upto();
    let ghost s0 = buf.start as int;
    let mut cur = buf.clone_view();
    loop
        invariant
            buf.wf(),
            cur.wf(),
            cur.source == buf.source,
            cur.end == buf.end,
            s0 == buf.start,
            t == buf.upto(),
            s0 <= cur.start,
            swallow_len(t, s0) == (cur.start - s0) + swallow_len(t, cur.start as int),
        decreases cur.end - cur.start,
    {
        let again = cur.clone_view();
        proof {
            lemma_run_bounds(t, cur.start as int, |c: char| is_space(c));
            if cur.start < t.len() {
                lemma_run_bounds(t, cur.start + 1, |c: char| c != '\n');
            }
        }
        match whitespace(cur) {
            Ok((next, _)) => {
                cur = next;
            },
            Err(_) => {
                let next = match comment(again.clone_view()) {
                    Ok((next, _)) => next,
                    Err(_) => again.clone_view(),
                };
                if next.start == again.start {
                    return again;
                }
                cur = next;
            },
        }
    }
}

/// `#t` or `#f`.
pub fn bool(buf: View) -> (r: Result<(View, Value), NoBool>)
    requires
        buf.wf(),
    ensures
        r is Ok ==> r->Ok_0.0.wf(),
        at_hash(buf.upto(), buf.start as int, 't') ==> r is Ok && r->Ok_0.0 == buf.skip(2)
            && r->Ok_0.1.deep() == Datum::Bool(true),
        !at_hash(buf.upto(), buf.start as int, 't') && at_hash(buf.upto(), buf.start as int, 'f') ==> r is Ok
            && r->Ok_0.0 == buf.skip(2) && r->Ok_0.1.deep() == Datum::Bool(false),
        !at_hash(buf.upto(), buf.start as int, 't') && !at_hash(buf.upto(), buf.start as int, 'f') ==> r is Err,
{
    let p = crate::fastpass::or("#t", "#f");
    let again = buf.clone_view();
    let ghost b0 = buf;
    let res = p.parse(buf);
    let ghost gres = res;
    proof {
        reveal_strlit("#t");
        reveal_strlit("#f");
        let t = b0.upto();
        if b0.len() >= 2 {
            assert(b0.spec_str()[0] == t[b0.start as int]);
            assert(b0.spec_str()[1] == t[b0.start + 1]);
            assert(at_hash(t, b0.start as int, 't') <==> b0.spec_str().take(2) =~= "#t"@);
            assert(at_hash(t, b0.start as int, 'f') <==> b0.spec_str().take(2) =~= "#f"@);
        }
        match gres {
            Ok((rest, Either::L(x))) => {
                crate::fastpass::str::lemma_literal("#t", b0, Ok((rest, x)));
            },
            Ok((rest, Either::R(y))) => {
                let e = choose|e: (View, &str)| #[trigger] p.l.parses(b0, Err(e)) && p.r.parses(b0, Ok((rest, y)));
                crate::fastpass::str::lemma_literal("#t", b0, Err(e));
                crate::fastpass::str::lemma_literal("#f", b0, Ok((rest, y)));
            },
            Err((e1, e2)) => {
                crate::fastpass::str::lemma_literal("#t", b0, Err(e1));
                crate::fastpass::str::lemma_literal("#f", b0, Err(e2));
            },
        }
    }
    match res {
        Ok((rest, Either::L(_))) => Ok((rest, Value::Bool(true))),
        Ok((rest, Either::R(_))) => Ok((rest, Value::Bool(false))),
        Err(_) => Err(NoBool(again)),
    }
}

/// `r` is what reading one expression from `buf` gives, as [`expr_spec`] says.
pub open spec fn expr_result(buf: View, r: Result<(View, Value), Either<NoSExpr, UnclosedSExpr>>) -> bool {
    match expr_spec(buf.upto(), buf.start as int) {
        Ok((j, d)) => r is Ok && r->Ok_0.0 == buf.skip(j - buf.start) && r->Ok_0.1.deep() == d,
        Err(Syntax::NoSExpr(p)) => r is Err && r->Err_0 is L && r->Err_0->L_0.0 == buf.skip(p - buf.start),
        Err(Syntax::Unclosed(p)) => r is Err && r->Err_0 is R && r->Err_0->R_0.0 == buf.skip(p - buf.start),
    }
}

/// `r` is what reading one s-expression from `buf` gives, as [`sexpr_spec`] says.
pub open spec fn sexpr_result(buf: View, r: Result<(View, Value), Either<NoSExpr, UnclosedSExpr>>) -> bool {
    match sexpr_spec(buf.upto(), buf.start as int) {
        Ok((j, d)) => r is Ok && r->Ok_0.0 == buf.skip(j - buf.start) && r->Ok_0.1.deep() == d,
        Err(Syntax::NoSExpr(p)) => r is Err && r->Err_0 is L && r->Err_0->L_0.0 == buf.skip(p - buf.start),
        Err(Syntax::Unclosed(p)) => r is Err && r->Err_0 is R && r->Err_0->R_0.0 == buf.skip(p - buf.start),
    }
}

/// An s-expression: `(`, whitespace and comments, expressions, `)`.
fn sexpr(buf: View) -> (r: Result<(View, Value), Either<NoSExpr, UnclosedSExpr>>)
    requires
        buf.wf(),
    ensures
        sexpr_result(buf, r),
    decreases buf.end - buf.start, 0int,
{
    let ghost t = buf.upto();
    let ghost i = buf.start as int;
    let ghost b0 = buf;
    let opened = Parser::parse(&"(", buf);
    proof {
        reveal_strlit("(");
        crate::fastpass::str::lemma_literal("(", b0, opened);
        if b0.len() >= 1 {
            assert(b0.spec_str()[0] == t[i]);
            assert(b0.spec_str().take(1) =~= "("@ <==> t[i] == '(');
        }
    }
    let mid = match opened {
        Ok((mid, _)) => mid,
        Err((at, _)) => {
            proof {
                let n = choose|n: int| crate::fastpass::str::agree_len("("@, b0.spec_str(), n) && opened == if n == "("@.len() {
                    Ok::<(View, View), (View, &str)>((b0.skip(n), b0.take(n)))
                } else {
                    Err((b0.skip(n), "("))
                };
                assert(b0.skip(0) == b0);
            }
            return Err(Either::L(NoSExpr(at)));
        },
    };
    proof {
        lemma_swallow_bounds(t, i + 1);
    }
    let ghost o = i + 1 + swallow_len(t, i + 1);
    let mut cur = swallow(mid);
    let mut items: Vec<Value> = Vec::new();
    let mut done = false;
    while !done
        invariant
            buf.wf(),
            cur.wf(),
            cur.source == buf.source,
            cur.end == buf.end,
            t == buf.upto(),
            i == buf.start,
            i < o <= cur.start,
            o == i + 1 + swallow_len(t, i + 1),
            0 <= i < t.len() && t[i] == '(',
            items_spec(t, o).0 == items_spec(t, cur.start as int).0,
            items_spec(t, o).2 == items_spec(t, cur.start as int).2,
            items_spec(t, o).1 == deep_seq(items@) + items_spec(t, cur.start as int).1,
            done ==> items_spec(t, cur.start as int) == (cur.start as int, Seq::<Datum>::empty(), items_spec(t, o).2),
            done ==> items_spec(t, o).2 is NoSExpr,
        decreases cur.end - cur.start + if done { 0int } else { 1int },
    {
        let again = cur.clone_view();
        let ghost c0 = cur;
        proof {
            lemma_expr_bounds(t, c0.start as int);
        }
        match expr(cur) {
            Ok((next, v)) => {
                proof {
                    let j = next.start as int;
                    assert(deep_seq(items@.push(v)) =~= deep_seq(items@).push(v.deep()));
                    assert(seq![v.deep()] + items_spec(t, j).1 == items_spec(t, c0.start as int).1);
                    assert(deep_seq(items@).push(v.deep()) + items_spec(t, j).1 =~= deep_seq(items@) + (seq![v.deep()] + items_spec(t, j).1));
                }
                items.push(v);
                cur = next;
            },
            Err(Either::R(u)) => {
                proof {
                    assert(c0.upto() == t);
                    assert(expr_spec(t, c0.start as int) is Err);
                    assert(items_spec(t, c0.start as int).2 == expr_spec(t, c0.start as int)->Err_0);
                    assert(items_spec(t, c0.start as int).2 is Unclosed);
                    let p = items_spec(t, c0.start as int).2->Unclosed_0;
                    assert(sexpr_spec(t, i) == Err::<(int, Datum), Syntax>(Syntax::Unclosed(p)));
                    assert(c0.skip(p - c0.start) == buf.skip(p - buf.start));
                }
                return Err(Either::R(u));
            },
            Err(Either::L(_)) => {
                cur = again;
                done = true;
            },
        }
    }
    let ghost q = cur.start as int;
    let ghost c1 = cur;
    let closed = Parser::parse(&")", cur);
    proof {
        reveal_strlit(")");
        crate::fastpass::str::lemma_literal(")", c1, closed);
        assert(deep_seq(items@) + Seq::<Datum>::empty() =~= deep_seq(items@));
        if c1.len() >= 1 {
            assert(c1.spec_str()[0] == t[q]);
            assert(c1.spec_str().take(1) =~= ")"@ <==> t[q] == ')');
        }
    }
    match closed {
        Ok((rest, _)) => {
            let list = Value::List(Rc::new(items));
            proof {
                assert(view_values(items) =~= deep_seq(items@));
            }
            Ok((rest, list))
        },
        Err((at, _)) => {
            proof {
                let n = choose|n: int| crate::fastpass::str::agree_len(")"@, c1.spec_str(), n) && closed == if n == ")"@.len() {
                    Ok::<(View, View), (View, &str)>((c1.skip(n), c1.take(n)))
                } else {
                    Err((c1.skip(n), ")"))
                };
            }
            Err(Either::R(UnclosedSExpr(at)))
        },
    }
}

/// One expression, and the whitespace and comments after it.
pub fn expr(buf: View) -> (r: Result<(View, Value), Either<NoSExpr, UnclosedSExpr>>)
    requires
        buf.wf(),
    ensures
        expr_result(buf, r),
    decreases buf.end - buf.start, 1int,
{
    let again = buf.clone_view();
    let again2 = buf.clone_view();
    match bool(buf) {
        Ok((rest, v)) => {
            return Ok((swallow(rest), v));
        },
        Err(_) => {},
    }
    let ghost b0 = again;
    proof {
        let t = b0.upto();
        let k = symbol_run(t, b0.start as int);
        lemma_run_bounds(t, b0.start as int, |c: char| !is_illegal(c));
        assert(t.subrange(b0.start as int, b0.start + k) =~= b0.spec_str().take(k));
    }
    match symbol(again) {
        Ok((rest, v)) => {
            return Ok((swallow(rest), v));
        },
        Err(_) => {},
    }
    match sexpr(again2) {
        Ok((rest, v)) => Ok((swallow(rest), v)),
        Err(e) => Err(e),
    }
}

} // verus!

verus! {

/// The expression rule as a parser, for use with the combinators.
pub struct Expr;

impl Parser for Expr {
    type Output = Value;
    type Error = Either<NoSExpr, UnclosedSExpr>;

    open spec fn valid(&self) -> bool {
        true
    }

    open spec fn parses(&self, buf: View, r: Result<(View, Value), Either<NoSExpr, UnclosedSExpr>>) -> bool {
        buf.wf() && expr_result(buf, r)
    }

    fn parse(&self, buf: View) -> (r: Result<(View, Value), Either<NoSExpr, UnclosedSExpr>>) {
        let ghost b0 = buf;
        let r = expr(buf);
        proof {
            lemma_expr_bounds(b0.upto(), b0.start as int);
        }
        r
    }
}

/// Every successful read of an expression consumes input.
pub proof fn lemma_expr_consumes()
    ensures
        crate::fastpass::repeat::consumes(Expr),
{
    assert forall|b: View, r: Result<(View, Value), Either<NoSExpr, UnclosedSExpr>>|
        #[trigger] Expr.parses(b, r) && r is Ok implies b.start < r->Ok_0.0.start by {
        lemma_expr_bounds(b.upto(), b.start as int);
    }
}

/// Values read one after another by [`Expr`] are the expressions that
/// [`items_spec`] reads there.
pub proof fn lemma_steps_items(from: View, items: Seq<Value>, to: View)
    requires
        from.wf(),
        crate::fastpass::repeat::steps(Expr, from, items, to),
    ensures
        to.upto() == from.upto(),
        items_spec(from.upto(), from.start as int).0 == items_spec(to.upto(), to.start as int).0,
        items_spec(from.upto(), from.start as int).2 == items_spec(to.upto(), to.start as int).2,
        items_spec(from.upto(), from.start as int).1 == deep_seq(items) + items_spec(
            to.upto(),
            to.start as int,
        ).1,
    decreases items.len(),
{
    let t = from.upto();
    if items.len() == 0 {
        assert(deep_seq(items) + items_spec(t, to.start as int).1 =~= items_spec(t, to.start as int).1);
    } else {
        let mid = choose|mid: View|
            #[trigger] Expr.parses(from, Ok((mid, items[0]))) && mid.wf() && crate::fastpass::repeat::steps(
                Expr,
                mid,
                items.drop_first(),
                to,
            );
        lemma_expr_bounds(t, from.start as int);
        lemma_steps_items(mid, items.drop_first(), to);
        assert(mid.upto() == t);
        assert(deep_seq(items) =~= seq![items[0].deep()] + deep_seq(items.drop_first()));
        assert(deep_seq(items) + items_spec(t, to.start as int).1 =~= seq![items[0].deep()] + (deep_seq(
            items.drop_first(),
        ) + items_spec(t, to.start as int).1));
    }
}

/// A whole program: whitespace and comments, then expressions up to the end
/// of the input, read into one list.
pub fn sl(buf: View) -> (r: Result<Value, Either<UnclosedSExpr, UnexpectedToken>>)
    requires
        buf.wf(),
    ensures
        match program_spec(buf.upto(), buf.start as int) {
            Ok(xs) => r is Ok && r->Ok_0.deep() == Datum::List(xs),
            Err(ProgramError::Unclosed(p)) => r is Err && r->Err_0 is L && r->Err_0->L_0.0 == buf.skip(
                p - buf.start,
            ),
            Err(ProgramError::Unexpected(p)) => r is Err && r->Err_0 is R && r->Err_0->R_0.0 == buf.skip(
                p - buf.start,
            ),
        },
{
    let ghost t = buf.upto();
    let ghost b0 = buf;
    let first = swallow(buf);
    let ghost f0 = first;
    let spare = first.clone_view();
    let all = Expr.greedy();
    proof {
        lemma_expr_consumes();
    }
    let res = all.parse(first);
    match res {
        Ok((rest, (items, e))) => {
            proof {
                lemma_swallow_bounds(t, b0.start as int);
                lemma_steps_items(f0, items@, rest);
                lemma_expr_bounds(t, rest.start as int);
                assert(f0.start == b0.start + swallow_len(t, b0.start as int));
                assert(rest.upto() == t);
                assert(expr_spec(t, rest.start as int) is Err);
                assert(items_spec(t, rest.start as int) == (rest.start as int, Seq::<Datum>::empty(), expr_spec(t, rest.start as int)->Err_0));
                assert(deep_seq(items@) + Seq::<Datum>::empty() =~= deep_seq(items@));
            }
            match e {
                Either::R(u) => {
                    proof {
                        let p = items_spec(t, rest.start as int).2->Unclosed_0;
                        assert(rest.skip(p - rest.start) == b0.skip(p - b0.start));
                    }
                    Err(Either::L(u))
                },
                Either::L(_) => {
                    if rest.char_len() == 0 {
                        let list = Value::List(Rc::new(items));
                        proof {
                            assert(view_values(items) =~= deep_seq(items@));
                        }
                        Ok(list)
                    } else {
                        proof {
                            assert(rest == b0.skip(rest.start - b0.start));
                        }
                        Err(Either::R(UnexpectedToken(rest)))
                    }
                },
            }
        },
        Err(_) => Err(Either::R(UnexpectedToken(spare))),
    }
}

/// A program of nothing but whitespace and comments reads as no expressions.
pub proof fn lemma_blank_program(t: Seq<char>)
    requires
        swallow_len(t, 0) == t.len(),
    ensures
        program_spec(t, 0) == Ok::<Seq<Datum>, ProgramError>(Seq::empty()),
{
    lemma_run_bounds(t, t.len() as int, |c: char| !is_illegal(c));
    assert(expr_spec(t, t.len() as int) is Err);
}

} // verus!

verus! {

impl crate::fastpass::ErrorMessage for NoWhitespace {
    open spec fn spec_at(&self) -> View {
        self.0
    }

    open spec fn spec_expected(&self) -> Seq<char> {
        "expected whitespace"@
    }

    fn at(&self) -> (r: View) {
        self.0.clone_view()
    }

    fn expected(&self) -> (r: &'static str) {
        "expected whitespace"
    }
}

impl crate::fastpass::ErrorMessage for NoBool {
    open spec fn spec_at(&self) -> View {
        self.0
    }

    open spec fn spec_expected(&self) -> Seq<char> {
        "expected boolean (#t or #f)"@
    }

    fn at(&self) -> (r: View) {
        self.0.clone_view()
    }

    fn expected(&self) -> (r: &'static str) {
        "expected boolean (#t or #f)"
    }
}

impl crate::fastpass::ErrorMessage for NoSymbol {
    open spec fn spec_at(&self) -> View {
        self.0
    }

    open spec fn spec_expected(&self) -> Seq<char> {
        "expected symbol"@
    }

    fn at(&self) -> (r: View) {
        self.0.clone_view()
    }

    fn expected(&self) -> (r: &'static str) {
        "expected symbol"
    }
}

impl crate::fastpass::ErrorMessage for NoSExpr {
    open spec fn spec_at(&self) -> View {
        self.0
    }

    open spec fn spec_expected(&self) -> Seq<char> {
        "expected '('"@
    }

    fn at(&self) -> (r: View) {
        self.0.clone_view()
    }

    fn expected(&self) -> (r: &'static str) {
        "expected '('"
    }
}

impl crate::fastpass::ErrorMessage for UnclosedSExpr {
    open spec fn spec_at(&self) -> View {
        self.0
    }

    open spec fn spec_expected(&self) -> Seq<char> {
        "missing ')', unclosed s expression"@
    }

    fn at(&self) -> (r: View) {
        self.0.clone_view()
    }

    fn expected(&self) -> (r: &'static str) {
        "missing ')', unclosed s expression"
    }
}

impl crate::fastpass::ErrorMessage for UnexpectedToken {
    open spec fn spec_at(&self) -> View {
        self.0
    }

    open spec fn spec_expected(&self) -> Seq<char> {
        "unexpected token"@
    }

    fn at(&self) -> (r: View) {
        self.0.clone_view()
    }

    fn expected(&self) -> (r: &'static str) {
        "unexpected token"
    }
}

} // verus!
