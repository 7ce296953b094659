//! Printing an expression and reading the text back gives the same expression.

use vstd::prelude::*;

use super::{
    expr_spec, is_illegal, is_space, items_spec, lemma_expr_bounds, lemma_run_bounds, lemma_run_is,
    lemma_swallow_bounds, program_spec, run, sexpr_spec, space_run, swallow_len, symbol_run, at_hash,
    ProgramError, Syntax,
};
use crate::interpreter::values::{print_items, print_spec, Datum};

verus! {

/// `d` is an expression the reader can produce: no procedures, and symbols
/// that are non-empty runs of symbol characters not starting as a boolean does.
pub open spec fn readable(d: Datum) -> bool
    decreases d, 0int,
{
    match d {
        Datum::Symbol(s) => {
            &&& s.len() > 0
            &&& forall|j: int| 0 <= j < s.len() ==> !is_illegal(#[trigger] s[j])
            &&& !(s.len() >= 2 && s[0] == '#' && (s[1] == 't' || s[1] == 'f'))
        },
        Datum::Bool(_) => true,
        Datum::List(xs) => readable_from(xs, 0),
        Datum::Procedure(_, _) => false,
    }
}

pub open spec fn readable_from(xs: Seq<Datum>, k: int) -> bool
    decreases xs, xs.len() - k,
{
    if 0 <= k < xs.len() {
        readable(xs[k]) && readable_from(xs, k + 1)
    } else {
        true
    }
}

/// The printed form of a readable expression is not empty and does not begin
/// with whitespace, `;` or `)`.
pub proof fn lemma_print_start(d: Datum)
    requires
        readable(d),
    ensures
        print_spec(d).len() > 0,
        !is_space(print_spec(d)[0]),
        print_spec(d)[0] != ';',
        print_spec(d)[0] != ')',
{
    reveal_strlit("#t");
    reveal_strlit("#f");
    reveal_strlit("(");
    reveal_strlit(")");
    match d {
        Datum::Symbol(s) => {
            assert(!is_illegal(s[0]));
        },
        Datum::List(xs) => {
            assert(("("@ + print_items(xs, 0) + ")"@)[0] == '(');
        },
        _ => {},
    }
}

/// No whitespace and no comment start at `m`: nothing is swallowed.
pub proof fn lemma_swallow_none(t: Seq<char>, m: int)
    requires
        0 <= m <= t.len(),
        m < t.len() ==> !is_space(t[m]) && t[m] != ';',
    ensures
        swallow_len(t, m) == 0,
{
}

/// One space, then no whitespace and no comment: one character is swallowed.
pub proof fn lemma_swallow_one(t: Seq<char>, m: int)
    requires
        0 <= m < t.len(),
        t[m] == ' ',
        m + 1 < t.len() ==> !is_space(t[m + 1]) && t[m + 1] != ';',
    ensures
        swallow_len(t, m) == 1,
{
    assert(space_run(t, m + 1) == 0);
    assert(space_run(t, m) == 1);
    lemma_swallow_none(t, m + 1);
}

/// Where `a + b` stands at `j`, `a` stands at `j` and `b` right after it.
pub proof fn lemma_split(t: Seq<char>, j: int, a: Seq<char>, b: Seq<char>)
    requires
        0 <= j,
        j + a.len() + b.len() <= t.len(),
        t.subrange(j, j + a.len() + b.len()) == a + b,
    ensures
        t.subrange(j, j + a.len()) == a,
        t.subrange(j + a.len(), j + a.len() + b.len()) == b,
{
    assert forall|k: int| 0 <= k < a.len() implies t.subrange(j, j + a.len())[k] == a[k] by {
        assert(t.subrange(j, j + a.len() + b.len())[k] == (a + b)[k]);
    }
    assert forall|k: int| 0 <= k < b.len() implies t.subrange(j + a.len(), j + a.len() + b.len())[k] == b[k] by {
        assert(t.subrange(j, j + a.len() + b.len())[a.len() + k] == (a + b)[a.len() + k]);
        assert((a + b)[a.len() + k] == b[k]);
        assert(t.subrange(j + a.len(), j + a.len() + b.len())[k] == t[j + a.len() + k]);
        assert(t.subrange(j, j + a.len() + b.len())[a.len() + k] == t[j + a.len() + k]);
    }
    assert(t.subrange(j, j + a.len()) =~= a);
    assert(t.subrange(j + a.len(), j + a.len() + b.len()) =~= b);
}

/// Reading the printed form of a readable expression, wherever it stands in a
/// text and is followed by the end, a space or `)`, gives back the expression.
pub proof fn lemma_read_printed(t: Seq<char>, i: int, d: Datum)
    requires
        readable(d),
        0 <= i,
        i + print_spec(d).len() <= t.len(),
        t.subrange(i, i + print_spec(d).len()) == print_spec(d),
        i + print_spec(d).len() == t.len() || t[i + print_spec(d).len()] == ' ' || t[i
            + print_spec(d).len()] == ')',
    ensures
        expr_spec(t, i) == Ok::<(int, Datum), Syntax>(
            (i + print_spec(d).len() + swallow_len(t, i + print_spec(d).len()), d),
        ),
    decreases d, 0int,
{
    reveal_strlit("#t");
    reveal_strlit("#f");
    reveal_strlit("(");
    reveal_strlit(")");
    let p = print_spec(d);
    let e = i + p.len();
    assert(forall|k: int| 0 <= k < p.len() ==> t[i + k] == #[trigger] p[k]) by {
        assert forall|k: int| 0 <= k < p.len() implies t[i + k] == #[trigger] p[k] by {
            assert(t.subrange(i, e)[k] == p[k]);
        }
    }
    match d {
        Datum::Bool(b) => {
            assert(t[i] == p[0]);
            assert(t[i + 1] == p[1]);
        },
        Datum::Symbol(s) => {
            assert(t[i] == s[0]);
            if s.len() >= 2 {
                assert(t[i + 1] == s[1]);
            }
            assert(!at_hash(t, i, 't') && !at_hash(t, i, 'f'));
            assert forall|j: int| i <= j < i + s.len() implies !is_illegal(t[j]) by {
                assert(t[i + (j - i)] == p[j - i]);
            }
            lemma_run_is(t, i, |c: char| !is_illegal(c), s.len() as int);
            assert(t.subrange(i, i + s.len()) =~= s);
        },
        Datum::List(xs) => {
            let body = print_items(xs, 0);
            assert(p == "("@ + body + ")"@);
            assert(p[0] == '(');
            assert(t[i + 0] == p[0]);
            assert(t[i] == '(');
            assert(!at_hash(t, i, 't') && !at_hash(t, i, 'f'));
            assert(symbol_run(t, i) == 0);
            lemma_split(t, i, "("@ + body, ")"@);
            lemma_split(t, i, "("@, body);
            assert(t[i + 1 + body.len()] == ')') by {
                assert(p[1 + body.len() as int] == ')');
            }
            if xs.len() > 0 {
                lemma_items_start(xs, 0);
                assert(t[i + 1] == body[0]) by {
                    assert(p[1] == body[0]);
                }
            }
            lemma_swallow_none(t, i + 1);
            lemma_read_printed_items(t, i + 1, xs, 0);
            assert(xs.subrange(0, xs.len() as int) =~= xs);
        },
        Datum::Procedure(_, _) => {},
    }
}

/// The elements from `k` on of a list of readable expressions, printed, are
/// not empty and do not begin with whitespace, `;` or `)`.
pub proof fn lemma_items_start(xs: Seq<Datum>, k: int)
    requires
        0 <= k < xs.len(),
        readable_from(xs, k),
    ensures
        print_items(xs, k).len() > 0,
        print_items(xs, k)[0] == print_spec(xs[k])[0],
        !is_space(print_items(xs, k)[0]),
        print_items(xs, k)[0] != ';',
{
    lemma_print_start(xs[k]);
    reveal_strlit(" ");
}

/// Reading the printed elements of a list, followed by `)`, gives them back
/// and stops at the `)`.
pub proof fn lemma_read_printed_items(t: Seq<char>, j: int, xs: Seq<Datum>, k: int)
    requires
        0 <= k <= xs.len(),
        readable_from(xs, k),
        0 <= j,
        j + print_items(xs, k).len() < t.len(),
        t.subrange(j, j + print_items(xs, k).len()) == print_items(xs, k),
        t[j + print_items(xs, k).len()] == ')',
    ensures
        items_spec(t, j) == (
            j + print_items(xs, k).len(),
            xs.subrange(k, xs.len() as int),
            Syntax::NoSExpr(j + print_items(xs, k).len()),
        ),
    decreases xs, xs.len() - k,
{
    reveal_strlit(" ");
    lemma_run_bounds(t, j, |c: char| !is_illegal(c));
    if k == xs.len() {
        assert(symbol_run(t, j) == 0);
        assert(xs.subrange(k, xs.len() as int) =~= Seq::<Datum>::empty());
    } else {
        let pk = print_spec(xs[k]);
        let e = j + pk.len();
        if k + 1 < xs.len() {
            let rest = print_items(xs, k + 1);
            assert(print_items(xs, k) == pk + " "@ + rest);
            lemma_split(t, j, pk + " "@, rest);
            lemma_split(t, j, pk, " "@);
            assert(t[e] == ' ') by {
                assert(t.subrange(e, e + 1)[0] == " "@[0]);
            }
            lemma_items_start(xs, k + 1);
            assert(t[e + 1] == rest[0]) by {
                assert(t.subrange(e + 1, e + 1 + rest.len())[0] == rest[0]);
            }
            lemma_read_printed(t, j, xs[k]);
            lemma_swallow_one(t, e);
            lemma_read_printed_items(t, e + 1, xs, k + 1);
            assert(xs.subrange(k, xs.len() as int) =~= seq![xs[k]] + xs.subrange(k + 1, xs.len() as int));
        } else {
            assert(print_items(xs, k) == pk);
            lemma_read_printed(t, j, xs[k]);
            lemma_swallow_none(t, e);
            lemma_run_bounds(t, e, |c: char| !is_illegal(c));
            assert(symbol_run(t, e) == 0);
            assert(t[e] == ')');
            assert(sexpr_spec(t, e) == Err::<(int, Datum), Syntax>(Syntax::NoSExpr(e)));
            assert(expr_spec(t, e) == Err::<(int, Datum), Syntax>(Syntax::NoSExpr(e)));
            assert(items_spec(t, e) == (e, Seq::<Datum>::empty(), Syntax::NoSExpr(e)));
            assert(xs.subrange(k, xs.len() as int) =~= seq![xs[k]]);
            assert(seq![xs[k]] + Seq::<Datum>::empty() =~= seq![xs[k]]);
        }
    }
}

/// Printing a readable expression and reading the text as a program gives
/// back just that expression.
pub proof fn lemma_print_read(d: Datum)
    requires
        readable(d),
    ensures
        program_spec(print_spec(d), 0) == Ok::<Seq<Datum>, ProgramError>(seq![d]),
{
    let t = print_spec(d);
    lemma_print_start(d);
    lemma_swallow_none(t, 0);
    assert(t.subrange(0, t.len() as int) =~= t);
    lemma_read_printed(t, 0, d);
    lemma_swallow_none(t, t.len() as int);
    lemma_run_bounds(t, t.len() as int, |c: char| !is_illegal(c));
    assert(sexpr_spec(t, t.len() as int) == Err::<(int, Datum), Syntax>(Syntax::NoSExpr(t.len() as int)));
    assert(expr_spec(t, t.len() as int) == Err::<(int, Datum), Syntax>(Syntax::NoSExpr(t.len() as int)));
    assert(items_spec(t, t.len() as int) == (t.len() as int, Seq::<Datum>::empty(), Syntax::NoSExpr(t.len() as int)));
    assert(seq![d] + Seq::<Datum>::empty() =~= seq![d]);
}

} // verus!

verus! {

/// Every character of a run satisfies its predicate.
pub proof fn lemma_run_holds(t: Seq<char>, i: int, p: spec_fn(char) -> bool)
    requires
        0 <= i,
    ensures
        forall|j: int| i <= j < i + run(t, i, p) ==> p(t[j]),
    decreases t.len() - i,
{
    if 0 <= i < t.len() && p(t[i]) {
        lemma_run_holds(t, i + 1, p);
    }
}

/// Readability of a list does not depend on what stands before it.
pub proof fn lemma_readable_shift(d: Datum, xs: Seq<Datum>, k: int)
    requires
        0 <= k <= xs.len(),
    ensures
        readable_from(seq![d] + xs, k + 1) == readable_from(xs, k),
    decreases xs.len() - k,
{
    if k < xs.len() {
        assert((seq![d] + xs)[k + 1] == xs[k]);
        lemma_readable_shift(d, xs, k + 1);
    }
}

/// Whatever the reader produces is readable.
pub proof fn lemma_parsed_readable(t: Seq<char>, i: int)
    requires
        0 <= i <= t.len(),
    ensures
        expr_spec(t, i) is Ok ==> readable(expr_spec(t, i)->Ok_0.1),
        sexpr_spec(t, i) is Ok ==> readable(sexpr_spec(t, i)->Ok_0.1),
        readable_from(items_spec(t, i).1, 0),
    decreases t.len() - i,
{
    lemma_expr_bounds(t, i);
    if 0 <= i < t.len() && t[i] == '(' {
        lemma_swallow_bounds(t, i + 1);
        let o = i + 1 + swallow_len(t, i + 1);
        lemma_parsed_readable(t, o);
    }
    let k = symbol_run(t, i);
    if k > 0 {
        lemma_run_bounds(t, i, |c: char| !is_illegal(c));
        lemma_run_holds(t, i, |c: char| !is_illegal(c));
        let s = t.subrange(i, i + k);
        assert forall|j: int| 0 <= j < s.len() implies !is_illegal(#[trigger] s[j]) by {
            assert(s[j] == t[i + j]);
        }
        if k >= 2 {
            assert(s[0] == t[i] && s[1] == t[i + 1]);
        }
    }
    if let Ok((j, d)) = expr_spec(t, i) {
        if i < j <= t.len() {
            lemma_parsed_readable(t, j);
            let xs = items_spec(t, j).1;
            lemma_readable_shift(d, xs, 0);
            assert((seq![d] + xs)[0] == d);
            assert(readable(d));
            assert(readable_from(seq![d] + xs, 0));
            assert(items_spec(t, i).1 == seq![d] + xs);
        }
    }
}

/// Printing an expression that the reader produced, and reading the printed
/// text, gives back the same expression.
pub proof fn lemma_reprint(t: Seq<char>, i: int)
    requires
        0 <= i <= t.len(),
        expr_spec(t, i) is Ok,
    ensures
        program_spec(print_spec(expr_spec(t, i)->Ok_0.1), 0) == Ok::<Seq<Datum>, ProgramError>(
            seq![expr_spec(t, i)->Ok_0.1],
        ),
{
    lemma_parsed_readable(t, i);
    lemma_print_read(expr_spec(t, i)->Ok_0.1);
}

} // verus!
