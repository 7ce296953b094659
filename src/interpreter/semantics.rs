//! What evaluation means: a big-step semantics over the models of values and
//! environments. Every step spends fuel; running out is an evaluation error.

use vstd::prelude::*;

use super::env::{env_lookup, extend, EnvModel, FrameModel};
use super::values::{Builtin, Callable, Datum};

verus! {

/// Why evaluation stopped. Every failure aborts the whole evaluation.
#[derive(PartialEq, Eq, Structural, Clone, Copy, Debug)]
pub enum EvalError {
    /// A symbol has no binding.
    Unbound,
    /// The head of a form is not a procedure, or the form is empty.
    NotCallable,
    /// A special form does not have the shape it needs.
    Malformed,
    /// A closure got a different number of arguments than it has parameters.
    Arity,
    /// Evaluation went deeper than its fuel allows.
    Exhausted,
}

pub type Outcome = Result<Datum, EvalError>;

/// `d` is the symbol `w`.
pub open spec fn is_sym(d: Datum, w: Seq<char>) -> bool {
    d == Datum::Symbol(w)
}

/// Booleans are themselves, lists are true when not empty, anything else is true.
pub open spec fn truthiness(d: Datum) -> bool {
    match d {
        Datum::Bool(b) => b,
        Datum::List(xs) => xs.len() != 0,
        _ => true,
    }
}

/// A frame binding one name.
pub open spec fn single(name: Seq<char>, v: Datum) -> FrameModel {
    FrameModel::Pairs(seq![(name, v)])
}

pub open spec fn all_symbols(xs: Seq<Datum>) -> bool {
    forall|i: int| 0 <= i < xs.len() ==> #[trigger] xs[i] is Symbol
}

pub open spec fn names(xs: Seq<Datum>) -> Seq<Seq<char>> {
    xs.map_values(|d: Datum| d->Symbol_0)
}

pub open spec fn zip_pairs(ns: Seq<Seq<char>>, vs: Seq<Datum>) -> Seq<(Seq<char>, Datum)> {
    Seq::new(ns.len(), |i: int| (ns[i], vs[i]))
}

/// Structural equality of symbols, booleans and lists (equal lengths, equal
/// elements). Procedures are equal when their binders are: the same built-in
/// form, or closures (macros) with the same parameters (binding) and the same
/// body. Every value is the same as itself: see [`lemma_same_reflexive`].
pub open spec fn same(a: Datum, b: Datum) -> bool
    decreases a, 0int,
{
    match (a, b) {
        (Datum::Symbol(x), Datum::Symbol(y)) => x == y,
        (Datum::Bool(x), Datum::Bool(y)) => x == y,
        (Datum::List(xs), Datum::List(ys)) => xs.len() == ys.len() && same_from(xs, ys, 0),
        (Datum::Procedure(_, c1), Datum::Procedure(_, c2)) => same_binder(c1, c2),
        _ => false,
    }
}

/// Two binders are the same built-in form, or have the same names and bodies.
pub open spec fn same_binder(c1: Callable, c2: Callable) -> bool
    decreases c1, 0int,
{
    match (c1, c2) {
        (Callable::Builtin(x), Callable::Builtin(y)) => x == y,
        (Callable::Lambda(ps, b), Callable::Lambda(qs, d)) => ps == qs && same(*b, *d),
        (Callable::Macro(n, b), Callable::Macro(m, d)) => n == m && same(*b, *d),
        _ => false,
    }
}

pub open spec fn same_from(xs: Seq<Datum>, ys: Seq<Datum>, i: int) -> bool
    decreases xs, xs.len() - i,
{
    if 0 <= i < xs.len() && i < ys.len() {
        same(xs[i], ys[i]) && same_from(xs, ys, i + 1)
    } else {
        true
    }
}

/// Matching `subject` against `pattern`: the extended environment, no match,
/// or a malformed pattern. A symbol matches anything and binds it; `(quote x)`
/// matches what is [`same`] as `x`; a list matches a list position by position
/// (elements past the shorter one are ignored); anything else must be [`same`].
pub open spec fn match_spec(env: EnvModel, subject: Datum, pattern: Datum) -> Result<
    Option<EnvModel>,
    EvalError,
>
    decreases pattern, 0int,
{
    match pattern {
        Datum::Symbol(id) => Ok(Some(extend(env, single(id, subject)))),
        Datum::List(ps) => if ps.len() >= 1 && is_sym(ps[0], "quote"@) {
            if ps.len() == 2 {
                Ok(
                    if same(subject, ps[1]) {
                        Some(env)
                    } else {
                        None
                    },
                )
            } else {
                Err(EvalError::Malformed)
            }
        } else {
            match subject {
                Datum::List(ss) => match_from(env, ss, ps, 0),
                _ => Ok(None),
            }
        },
        _ => Ok(
            if same(subject, pattern) {
                Some(env)
            } else {
                None
            },
        ),
    }
}

pub open spec fn match_from(env: EnvModel, ss: Seq<Datum>, ps: Seq<Datum>, i: int) -> Result<
    Option<EnvModel>,
    EvalError,
>
    decreases ps, ps.len() - i,
{
    if 0 <= i < ps.len() && i < ss.len() {
        match match_spec(env, ss[i], ps[i]) {
            Ok(Some(e2)) => match_from(e2, ss, ps, i + 1),
            other => other,
        }
    } else {
        Ok(Some(env))
    }
}

/// Evaluating `e` in `env`.
pub open spec fn eval_spec(env: EnvModel, e: Datum, fuel: nat) -> Outcome
    decreases fuel, 0int,
{
    if fuel == 0 {
        Err(EvalError::Exhausted)
    } else {
        match e {
            Datum::Symbol(s) => match env_lookup(env, s) {
                Some(v) => Ok(v),
                None => Err(EvalError::Unbound),
            },
            Datum::List(xs) => invoke_spec(env, xs, (fuel - 1) as nat),
            _ => Ok(e),
        }
    }
}

/// Evaluating the form `xs`: its head must evaluate to a procedure, whose
/// binder gets the caller's environment, the environment the procedure was
/// made in, and the argument forms unevaluated.
///
/// Scope is lexical: a closure's body sees only the environment it was made
/// in, extended with its parameters. Since environments only grow by
/// extension, a function made by `define` is bound after it is made and does
/// not see itself: a recursive function receives itself as an argument, or
/// recursion goes through a macro, whose body runs in the caller's environment.
pub open spec fn invoke_spec(env: EnvModel, xs: Seq<Datum>, fuel: nat) -> Outcome
    decreases fuel, 0int,
{
    if fuel == 0 {
        Err(EvalError::Exhausted)
    } else if xs.len() == 0 {
        Err(EvalError::NotCallable)
    } else {
        match eval_spec(env, xs[0], (fuel - 1) as nat) {
            Err(e) => Err(e),
            Ok(Datum::Procedure(penv, c)) => apply_spec(
                env,
                penv,
                c,
                xs.drop_first(),
                (fuel - 1) as nat,
            ),
            Ok(_) => Err(EvalError::NotCallable),
        }
    }
}

/// A binder given the caller's environment `env`, the procedure's defining
/// environment `penv`, and the argument forms. A closure evaluates its
/// arguments in `env` and its body in `penv` with the parameters bound; a
/// macro evaluates its body in `env` with its binding holding the argument
/// forms; a built-in form works in `env`.
pub open spec fn apply_spec(env: EnvModel, penv: EnvModel, c: Callable, args: Seq<Datum>, fuel: nat) -> Outcome
    decreases fuel, 0int,
{
    if fuel == 0 {
        Err(EvalError::Exhausted)
    } else {
        let f = (fuel - 1) as nat;
        match c {
            Callable::Lambda(params, body) => if args.len() != params.len() {
                Err(EvalError::Arity)
            } else {
                match eval_each(env, args, Seq::empty(), f) {
                    Ok(vs) => eval_spec(extend(penv, FrameModel::Pairs(zip_pairs(params, vs))), *body, f),
                    Err(e) => Err(e),
                }
            },
            Callable::Macro(b, body) => eval_spec(extend(env, single(b, Datum::List(args))), *body, f),
            Callable::Builtin(k) => builtin_spec(env, k, args, f),
        }
    }
}

/// The built-in forms.
pub open spec fn builtin_spec(env: EnvModel, k: Builtin, args: Seq<Datum>, fuel: nat) -> Outcome
    decreases fuel, 0int,
{
    if fuel == 0 {
        Err(EvalError::Exhausted)
    } else {
        let f = (fuel - 1) as nat;
        match k {
            Builtin::Lambda => if args.len() == 2 && args[0] is List && all_symbols(args[0]->List_0) {
                Ok(Datum::Procedure(env, Callable::Lambda(names(args[0]->List_0), Box::new(args[1]))))
            } else {
                Err(EvalError::Malformed)
            },
            Builtin::Macro => if args.len() == 2 && args[0] is Symbol {
                Ok(Datum::Procedure(env, Callable::Macro(args[0]->Symbol_0, Box::new(args[1]))))
            } else {
                Err(EvalError::Malformed)
            },
            Builtin::Let => if args.len() == 2 && args[0] is List {
                match let_pairs(env, args[0]->List_0, Seq::empty(), f) {
                    Ok(ps) => eval_spec(extend(env, FrameModel::Pairs(ps)), args[1], f),
                    Err(e) => Err(e),
                }
            } else {
                Err(EvalError::Malformed)
            },
            Builtin::Quote => if args.len() == 1 {
                Ok(args[0])
            } else {
                Ok(Datum::List(args))
            },
            Builtin::Quasiquote => if args.len() == 1 {
                quasi_spec(env, args[0], f)
            } else {
                Err(EvalError::Malformed)
            },
            Builtin::Eval => if args.len() == 1 {
                match eval_spec(env, args[0], f) {
                    Ok(v) => eval_spec(env, v, f),
                    Err(e) => Err(e),
                }
            } else {
                Err(EvalError::Malformed)
            },
            Builtin::Begin => if args.len() >= 1 {
                match define_all(env, args.drop_last(), f) {
                    Ok(e2) => eval_spec(e2, args.last(), f),
                    Err(e) => Err(e),
                }
            } else {
                Err(EvalError::Malformed)
            },
            Builtin::If => if args.len() == 3 {
                match eval_spec(env, args[0], f) {
                    Ok(v) => eval_spec(
                        env,
                        if truthiness(v) {
                            args[1]
                        } else {
                            args[2]
                        },
                        f,
                    ),
                    Err(e) => Err(e),
                }
            } else {
                Err(EvalError::Malformed)
            },
            Builtin::Guard => if args.len() >= 1 {
                match guard_from(env, args.drop_last(), 0, f) {
                    Ok(Some(v)) => Ok(v),
                    Ok(None) => eval_spec(env, args.last(), f),
                    Err(e) => Err(e),
                }
            } else {
                Err(EvalError::Malformed)
            },
            Builtin::Pmatch => if args.len() >= 2 {
                match eval_spec(env, args[0], f) {
                    Ok(v) => match pmatch_from(env, v, args.subrange(1, args.len() - 1), 0, f) {
                        Ok(Some(r)) => Ok(r),
                        Ok(None) => eval_spec(env, args.last(), f),
                        Err(e) => Err(e),
                    },
                    Err(e) => Err(e),
                }
            } else {
                Err(EvalError::Malformed)
            },
        }
    }
}

/// Each form of `xs` evaluated in `env`, in order, after the values `acc`;
/// the first failure wins.
pub open spec fn eval_each(env: EnvModel, xs: Seq<Datum>, acc: Seq<Datum>, fuel: nat) -> Result<
    Seq<Datum>,
    EvalError,
>
    decreases fuel, xs.len(),
{
    if xs.len() == 0 {
        Ok(acc)
    } else if fuel == 0 {
        Err(EvalError::Exhausted)
    } else {
        match eval_spec(env, xs[0], (fuel - 1) as nat) {
            Ok(v) => eval_each(env, xs.drop_first(), acc.push(v), fuel),
            Err(e) => Err(e),
        }
    }
}

/// The bindings of a `let`, after those in `acc`: each `(name expr)` with
/// `expr` evaluated in the outer environment `env`, never in the bindings
/// made before it.
pub open spec fn let_pairs(
    env: EnvModel,
    bs: Seq<Datum>,
    acc: Seq<(Seq<char>, Datum)>,
    fuel: nat,
) -> Result<Seq<(Seq<char>, Datum)>, EvalError>
    decreases fuel, bs.len(),
{
    if bs.len() == 0 {
        Ok(acc)
    } else if fuel == 0 {
        Err(EvalError::Exhausted)
    } else {
        match bs[0] {
            Datum::List(b) => if b.len() == 2 && b[0] is Symbol {
                match eval_spec(env, b[1], (fuel - 1) as nat) {
                    Ok(v) => let_pairs(env, bs.drop_first(), acc.push((b[0]->Symbol_0, v)), fuel),
                    Err(e) => Err(e),
                }
            } else {
                Err(EvalError::Malformed)
            },
            _ => Err(EvalError::Malformed),
        }
    }
}

/// A quoted structure rebuilt, with each `(unquote x)` replaced by the value of `x`.
pub open spec fn quasi_spec(env: EnvModel, d: Datum, fuel: nat) -> Outcome
    decreases fuel, 0int,
{
    if fuel == 0 {
        Err(EvalError::Exhausted)
    } else {
        match d {
            Datum::List(xs) => if xs.len() == 2 && is_sym(xs[0], "unquote"@) {
                eval_spec(env, xs[1], (fuel - 1) as nat)
            } else {
                match quasi_each(env, xs, Seq::empty(), (fuel - 1) as nat) {
                    Ok(vs) => Ok(Datum::List(vs)),
                    Err(e) => Err(e),
                }
            },
            _ => Ok(d),
        }
    }
}

pub open spec fn quasi_each(env: EnvModel, xs: Seq<Datum>, acc: Seq<Datum>, fuel: nat) -> Result<
    Seq<Datum>,
    EvalError,
>
    decreases fuel, xs.len(),
{
    if xs.len() == 0 {
        Ok(acc)
    } else if fuel == 0 {
        Err(EvalError::Exhausted)
    } else {
        match quasi_spec(env, xs[0], (fuel - 1) as nat) {
            Ok(v) => quasi_each(env, xs.drop_first(), acc.push(v), fuel),
            Err(e) => Err(e),
        }
    }
}

/// The environment after the definitions `ds`, each seeing those before it.
pub open spec fn define_all(env: EnvModel, ds: Seq<Datum>, fuel: nat) -> Result<EnvModel, EvalError>
    decreases fuel, ds.len(),
{
    if ds.len() == 0 {
        Ok(env)
    } else if fuel == 0 {
        Err(EvalError::Exhausted)
    } else {
        match define_spec(env, ds[0], (fuel - 1) as nat) {
            Ok(e2) => define_all(e2, ds.drop_first(), fuel),
            Err(e) => Err(e),
        }
    }
}

/// One of `(define name expr)`, `(define (name params...) body)` or
/// `(define-macro (name binding) body)`.
pub open spec fn define_spec(env: EnvModel, d: Datum, fuel: nat) -> Result<EnvModel, EvalError>
    decreases fuel, 0int,
{
    if fuel == 0 {
        Err(EvalError::Exhausted)
    } else {
        match d {
            Datum::List(xs) => if xs.len() == 3 && is_sym(xs[0], "define"@) {
                match xs[1] {
                    Datum::Symbol(name) => match eval_spec(env, xs[2], (fuel - 1) as nat) {
                        Ok(v) => Ok(extend(env, single(name, v))),
                        Err(e) => Err(e),
                    },
                    Datum::List(na) => if na.len() >= 1 && all_symbols(na) {
                        Ok(
                            extend(
                                env,
                                single(
                                    na[0]->Symbol_0,
                                    Datum::Procedure(
                                        env,
                                        Callable::Lambda(names(na.drop_first()), Box::new(xs[2])),
                                    ),
                                ),
                            ),
                        )
                    } else {
                        Err(EvalError::Malformed)
                    },
                    _ => Err(EvalError::Malformed),
                }
            } else if xs.len() == 3 && is_sym(xs[0], "define-macro"@) && xs[1] is List
                && xs[1]->List_0.len() == 2 && all_symbols(xs[1]->List_0) {
                let na = xs[1]->List_0;
                Ok(
                    extend(
                        env,
                        single(
                            na[0]->Symbol_0,
                            Datum::Procedure(env, Callable::Macro(na[1]->Symbol_0, Box::new(xs[2]))),
                        ),
                    ),
                )
            } else {
                Err(EvalError::Malformed)
            },
            _ => Err(EvalError::Malformed),
        }
    }
}

/// The first `(condition body)` clause from `i` on whose condition is truthy:
/// the value of its body, or none.
pub open spec fn guard_from(env: EnvModel, bs: Seq<Datum>, i: int, fuel: nat) -> Result<
    Option<Datum>,
    EvalError,
>
    decreases fuel, bs.len() - i,
{
    if !(0 <= i < bs.len()) || fuel == 0 {
        if !(0 <= i < bs.len()) { Ok(None) } else { Err(EvalError::Exhausted) }
    } else {
        match bs[i] {
            Datum::List(b) => if b.len() == 2 {
                match eval_spec(env, b[0], (fuel - 1) as nat) {
                    Ok(c) => if truthiness(c) {
                        match eval_spec(env, b[1], (fuel - 1) as nat) {
                            Ok(v) => Ok(Some(v)),
                            Err(e) => Err(e),
                        }
                    } else {
                        guard_from(env, bs, i + 1, fuel)
                    },
                    Err(e) => Err(e),
                }
            } else {
                Err(EvalError::Malformed)
            },
            _ => Err(EvalError::Malformed),
        }
    }
}

/// The first `(pattern [guard] body)` clause from `i` on that matches `v`
/// (and whose guard, evaluated where the match bound its names, is truthy):
/// the value of its body there, or none.
pub open spec fn pmatch_from(env: EnvModel, v: Datum, bs: Seq<Datum>, i: int, fuel: nat) -> Result<
    Option<Datum>,
    EvalError,
>
    decreases fuel, bs.len() - i,
{
    if !(0 <= i < bs.len()) || fuel == 0 {
        if !(0 <= i < bs.len()) { Ok(None) } else { Err(EvalError::Exhausted) }
    } else {
        let f = (fuel - 1) as nat;
        match bs[i] {
            Datum::List(b) => if b.len() == 2 {
                match match_spec(env, v, b[0]) {
                    Ok(Some(e2)) => match eval_spec(e2, b[1], f) {
                        Ok(r) => Ok(Some(r)),
                        Err(e) => Err(e),
                    },
                    Ok(None) => pmatch_from(env, v, bs, i + 1, fuel),
                    Err(e) => Err(e),
                }
            } else if b.len() == 3 {
                match match_spec(env, v, b[0]) {
                    Ok(Some(e2)) => match eval_spec(e2, b[1], f) {
                        Ok(g) => if truthiness(g) {
                            match eval_spec(e2, b[2], f) {
                                Ok(r) => Ok(Some(r)),
                                Err(e) => Err(e),
                            }
                        } else {
                            pmatch_from(env, v, bs, i + 1, fuel)
                        },
                        Err(e) => Err(e),
                    },
                    Ok(None) => pmatch_from(env, v, bs, i + 1, fuel),
                    Err(e) => Err(e),
                }
            } else {
                Err(EvalError::Malformed)
            },
            _ => Err(EvalError::Malformed),
        }
    }
}

} // verus!

verus! {

/// The `let` pair `b` is `(name expr)` and `p` binds `name` to the value that
/// `expr` has in `env`.
pub open spec fn binds_outer(env: EnvModel, b: Datum, fuel: nat, p: (Seq<char>, Datum)) -> bool {
    &&& b is List
    &&& b->List_0.len() == 2
    &&& b->List_0[0] is Symbol
    &&& eval_spec(env, b->List_0[1], (fuel - 1) as nat) is Ok
    &&& p == (b->List_0[0]->Symbol_0, eval_spec(env, b->List_0[1], (fuel - 1) as nat)->Ok_0)
}

/// `let` evaluates every initializer in the environment outside it: when the
/// bindings succeed, the `k`th binding names the `k`th pair's symbol with the
/// value its expression has in `env`, whatever the earlier bindings were.
pub proof fn lemma_let_outer_scope(
    env: EnvModel,
    bs: Seq<Datum>,
    acc: Seq<(Seq<char>, Datum)>,
    fuel: nat,
)
    requires
        let_pairs(env, bs, acc, fuel) is Ok,
    ensures
        ({
            let ps = let_pairs(env, bs, acc, fuel)->Ok_0;
            &&& ps.len() == acc.len() + bs.len()
            &&& ps.take(acc.len() as int) == acc
            &&& forall|k: int| 0 <= k < bs.len() ==> binds_outer(env, #[trigger] bs[k], fuel, ps[acc.len() + k])
        }),
    decreases bs.len(),
{
    if bs.len() > 0 {
        let b = bs[0]->List_0;
        let v = eval_spec(env, b[1], (fuel - 1) as nat)->Ok_0;
        let acc2 = acc.push((b[0]->Symbol_0, v));
        lemma_let_outer_scope(env, bs.drop_first(), acc2, fuel);
        let ps = let_pairs(env, bs, acc, fuel)->Ok_0;
        assert(ps == let_pairs(env, bs.drop_first(), acc2, fuel)->Ok_0);
        assert(ps.take(acc.len() as int) =~= acc) by {
            assert(ps.take(acc2.len() as int) == acc2);
            assert forall|j: int| 0 <= j < acc.len() implies ps[j] == acc[j] by {
                assert(ps.take(acc2.len() as int)[j] == acc2[j]);
            }
        }
        assert forall|k: int| 0 <= k < bs.len() implies binds_outer(env, #[trigger] bs[k], fuel, ps[acc.len() + k]) by {
            if k == 0 {
                assert(ps.take(acc2.len() as int)[acc.len() as int] == acc2[acc.len() as int]);
            } else {
                assert(bs[k] == bs.drop_first()[k - 1]);
            }
        }
    } else {
        assert(acc.take(acc.len() as int) =~= acc);
    }
}

/// Two values are [`same`] as a symbol exactly when they are that symbol.
pub proof fn lemma_same_symbol(subject: Datum, w: Seq<char>)
    ensures
        same(subject, Datum::Symbol(w)) <==> subject == Datum::Symbol(w),
{
}

/// A `(quote foo)` pattern matches only a subject that is the symbol `foo`,
/// and binds nothing; a bare symbol pattern matches any subject and binds it.
pub proof fn lemma_pmatch_patterns(env: EnvModel, subject: Datum, foo: Seq<char>, x: Seq<char>)
    ensures
        match_spec(env, subject, Datum::List(seq![Datum::Symbol("quote"@), Datum::Symbol(foo)])) == if subject
            == Datum::Symbol(foo) {
            Ok::<Option<EnvModel>, EvalError>(Some(env))
        } else {
            Ok(None)
        },
        match_spec(env, subject, Datum::Symbol(x)) == Ok::<Option<EnvModel>, EvalError>(
            Some(extend(env, single(x, subject))),
        ),
{
    lemma_same_symbol(subject, foo);
}

} // verus!

verus! {

/// Every value is the same as itself; in particular a procedure equals itself.
pub proof fn lemma_same_reflexive(a: Datum)
    ensures
        same(a, a),
    decreases a, 0int,
{
    match a {
        Datum::List(xs) => lemma_same_from_reflexive(xs, 0),
        Datum::Procedure(_, c) => match c {
            Callable::Lambda(_, b) => lemma_same_reflexive(*b),
            Callable::Macro(_, b) => lemma_same_reflexive(*b),
            _ => {},
        },
        _ => {},
    }
}

pub proof fn lemma_same_from_reflexive(xs: Seq<Datum>, i: int)
    ensures
        same_from(xs, xs, i),
    decreases xs, xs.len() - i,
{
    if 0 <= i < xs.len() {
        lemma_same_reflexive(xs[i]);
        lemma_same_from_reflexive(xs, i + 1);
    }
}

} // verus!
