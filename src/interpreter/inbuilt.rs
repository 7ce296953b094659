use std::rc::Rc;
use vstd::prelude::*;
use vstd::string::StrSliceExecFns;

use super::env::{extend, view_bindings, Frame, NameEnv, Values};
use super::semantics::{
    Outcome,
    builtin_spec, define_all, define_spec, eval_each, eval_spec, guard_from, is_sym, let_pairs, match_from,
    match_spec, pmatch_from, quasi_each, quasi_spec, same, same_from, single, truthiness, zip_pairs,
    EvalError, all_symbols, names,
};
use super::values::{deep_seq, lemma_list_deep, names_of, Binder, Builtin, Callable, Datum, Procedure, Value};
use super::{eval, outcome_is};

verus! {

broadcast use super::values::lemma_view_values, vstd::std_specs::vec::axiom_vec_index_decreases;

/// The arguments of the form `xs`, values shared.
fn args_list(xs: &Vec<Value>) -> (r: Value)
    requires
        xs@.len() >= 1,
    ensures
        r.deep() == Datum::List(deep_seq(xs@).drop_first()),
{
    let ghost all = deep_seq(xs@);
    let mut out: Vec<Value> = Vec::new();
    let mut i: usize = 1;
    while i < xs.len()
        invariant
            1 <= i <= xs@.len(),
            all == deep_seq(xs@),
            out@.len() == i - 1,
            forall|k: int| 0 <= k < i - 1 ==> #[trigger] out@[k] == xs@[k + 1],
        decreases xs@.len() - i,
    {
        out.push(xs[i].share());
        i += 1;
    }
    let r = Value::List(Rc::new(out));
    proof {
        assert(deep_seq(out@) =~= all.drop_first());
        assert(r.deep() == Datum::List(super::values::view_values(out)));
        assert(super::values::view_values(out) == deep_seq(out@));
    }
    r
}

/// The values bound so far, in order.
pub open spec fn bound_values(b: Seq<super::env::Value>) -> Seq<Datum> {
    Seq::new(b.len(), |k: int| b[k].1.deep())
}

/// The closure call `apply_spec` describes for a closure's parameters and
/// body: arguments evaluated in the caller's `env`, the body in `penv`.
pub open spec fn closure_spec(env: super::env::EnvModel, penv: super::env::EnvModel, ps: Seq<Seq<char>>, body: Datum, args: Seq<Datum>, fuel: nat) -> Outcome {
    if args.len() != ps.len() {
        Err(EvalError::Arity)
    } else {
        match eval_each(env, args, Seq::empty(), fuel) {
            Ok(vs) => eval_spec(extend(penv, super::env::FrameModel::Pairs(zip_pairs(ps, vs))), body, fuel),
            Err(e) => Err(e),
        }
    }
}

/// Calls a closure made in `penv`: the arguments evaluated in order in the
/// caller's `env`, bound positionally to the parameters on top of `penv`, and
/// the body evaluated there.
pub fn call_closure(
    env: &NameEnv,
    penv: &NameEnv,
    params: &Rc<Vec<String>>,
    body: &Rc<Value>,
    xs: &Vec<Value>,
    fuel: u64,
) -> (r: Result<Value, EvalError>)
    requires
        xs@.len() >= 1,
    ensures
        outcome_is(
            r,
            closure_spec(env.deep(), penv.deep(), names_of(params@), (**body).deep(), deep_seq(xs@).drop_first(), fuel as nat),
        ),
    decreases fuel, 1int,
{
    let ghost args = deep_seq(xs@).drop_first();
    let ghost n = args.len() as int;
    if xs.len() - 1 != params.len() {
        return Err(EvalError::Arity);
    }
    let mut bound: Vec<super::env::Value> = Vec::new();
    let mut i: usize = 1;
    proof {
        assert(args.subrange(0, n) =~= args);
        assert(bound_values(bound@) =~= Seq::<Datum>::empty());
    }
    while i < xs.len()
        invariant
            1 <= i <= xs@.len(),
            xs@.len() - 1 == params@.len(),
            args == deep_seq(xs@).drop_first(),
            n == args.len(),
            bound@.len() == i - 1,
            forall|k: int| 0 <= k < i - 1 ==> #[trigger] bound@[k].0@ == params@[k]@,
            eval_each(env.deep(), args, Seq::empty(), fuel as nat) == eval_each(
                env.deep(),
                args.subrange(i - 1, n),
                bound_values(bound@),
                fuel as nat,
            ),
        decreases xs@.len() - i,
    {
        let ghost rest = args.subrange(i - 1, n);
        proof {
            assert(rest.drop_first() =~= args.subrange(i as int, n));
            assert(rest[0] == xs@[i as int].deep());
        }
        if fuel == 0 {
            return Err(EvalError::Exhausted);
        }
        let v = eval(env, &xs[i], fuel - 1);
        match v {
            Ok(v) => {
                let ghost before = bound@;
                let name = params[i - 1].clone();
                bound.push(super::env::Value(name, v));
                proof {
                    assert(bound_values(bound@) =~= bound_values(before).push(v.deep()));
                }
            },
            Err(e) => {
                return Err(e);
            },
        }
        i += 1;
    }
    proof {
        let ps = names_of(params@);
        let vs = bound_values(bound@);
        assert(args.subrange(n, n).len() == 0);
        assert(view_bindings(bound) =~= zip_pairs(ps, vs));
    }
    let inner = penv.bind(Frame::Many(Values(bound)));
    eval(&inner, body, fuel)
}

/// Calls a macro: the argument forms, unevaluated, bound as one list to its
/// binding, and the body evaluated there.
pub fn call_macro(env: &NameEnv, binding: &String, body: &Rc<Value>, xs: &Vec<Value>, fuel: u64) -> (r:
    Result<Value, EvalError>)
    requires
        xs@.len() >= 1,
    ensures
        outcome_is(
            r,
            eval_spec(
                extend(env.deep(), single(binding@, Datum::List(deep_seq(xs@).drop_first()))),
                (**body).deep(),
                fuel as nat,
            ),
        ),
    decreases fuel, 1int,
{
    let args = args_list(xs);
    let inner = env.bind(Frame::One(super::env::Value(binding.clone(), args)));
    eval(&inner, body, fuel)
}

/// The built-in forms, by kind.
pub fn call_builtin(env: &NameEnv, k: Builtin, xs: &Vec<Value>, fuel: u64) -> (r: Result<Value, EvalError>)
    requires
        xs@.len() >= 1,
    ensures
        outcome_is(r, builtin_spec(env.deep(), k, deep_seq(xs@).drop_first(), fuel as nat)),
    decreases fuel, 2int,
{
    if fuel == 0 {
        return Err(EvalError::Exhausted);
    }
    let f = fuel - 1;
    match k {
        Builtin::Lambda => lambda_internal(env, xs, f),
        Builtin::Macro => lambda_macro_internal(env, xs, f),
        Builtin::Let => let_internal(env, xs, f),
        Builtin::Quote => quote_internal(xs, f),
        Builtin::Quasiquote => quasiquote_internal(env, xs, f),
        Builtin::Eval => eval_internal(env, xs, f),
        Builtin::Begin => begin_internal(env, xs, f),
        Builtin::If => if_internal(env, xs, f),
        Builtin::Guard => guard_internal(env, xs, f),
        Builtin::Pmatch => pmatch_internal(env, xs, f),
    }
}

/// `s` spells the word `w`.
pub fn is_word(s: &String, w: &str) -> (r: bool)
    ensures
        r == (s@ == w@),
{
    let a = s.as_str();
    let n = a.unicode_len();
    if n != w.unicode_len() {
        return false;
    }
    let mut i: usize = 0;
    while i < n
        invariant
            n == s@.len(),
            n == w@.len(),
            a@ == s@,
            i <= n,
            forall|k: int| 0 <= k < i ==> s@[k] == w@[k],
        decreases n - i,
    {
        if a.get_char(i) != w.get_char(i) {
            return false;
        }
        i += 1;
    }
    assert(s@ =~= w@);
    true
}

/// `v` is the symbol `w`.
fn is_symbol(v: &Value, w: &str) -> (r: bool)
    ensures
        r == is_sym(v.deep(), w@),
{
    match v {
        Value::Symbol(s) => is_word(s, w),
        _ => false,
    }
}

/// Truthiness: a boolean is itself, a list is true when not empty, anything
/// else is true.
pub fn truthy(v: &Value) -> (r: bool)
    ensures
        r == truthiness(v.deep()),
{
    match v {
        Value::Bool(b) => *b,
        Value::List(xs) => {
            proof {
                lemma_list_deep(*v);
            }
            xs.len() != 0
        },
        _ => true,
    }
}

/// The names of a binding list that holds only symbols, or `None`.
fn symbol_names(bs: &Vec<Value>) -> (r: Option<Vec<String>>)
    ensures
        all_symbols(deep_seq(bs@)) <==> r is Some,
        r is Some ==> names_of(r->Some_0@) == names(deep_seq(bs@)),
{
    let mut out: Vec<String> = Vec::new();
    let mut i: usize = 0;
    while i < bs.len()
        invariant
            i <= bs@.len(),
            out@.len() == i,
            forall|k: int| 0 <= k < i ==> #[trigger] deep_seq(bs@)[k] is Symbol,
            forall|k: int| 0 <= k < i ==> #[trigger] out@[k]@ == deep_seq(bs@)[k]->Symbol_0,
        decreases bs@.len() - i,
    {
        match &bs[i] {
            Value::Symbol(s) => {
                out.push(s.clone());
            },
            _ => {
                assert(!(deep_seq(bs@)[i as int] is Symbol));
                return None;
            },
        }
        i += 1;
    }
    assert(names_of(out@) =~= names(deep_seq(bs@)));
    Some(out)
}

fn new_procedure(env: &NameEnv, binder: Binder) -> (r: Value)
    ensures
        r.deep() == Datum::Procedure(env.deep(), super::values::view_binder(binder)),
{
    Value::Procedure(Rc::new(Procedure { env: env.share(), binder }))
}

/// `(lambda (params...) body)`: a closure over `env`.
pub fn lambda_internal(env: &NameEnv, xs: &Vec<Value>, fuel: u64) -> (r: Result<Value, EvalError>)
    requires
        xs@.len() >= 1,
    ensures
        outcome_is(r, builtin_spec(env.deep(), Builtin::Lambda, deep_seq(xs@).drop_first(), (fuel + 1) as nat)),
{
    if xs.len() != 3 {
        return Err(EvalError::Malformed);
    }
    match &xs[1] {
        Value::List(bs) => {
            proof {
                lemma_list_deep(xs@[1]);
            }
            match symbol_names(bs) {
                Some(params) => {
                    let body = Rc::new(xs[2].share());
                    Ok(new_procedure(env, Binder::Lambda(Rc::new(params), body)))
                },
                None => Err(EvalError::Malformed),
            }
        },
        _ => Err(EvalError::Malformed),
    }
}

/// `(macro binding body)`: a macro over `env` that binds its unevaluated
/// argument forms, as one list, to `binding`.
pub fn lambda_macro_internal(env: &NameEnv, xs: &Vec<Value>, fuel: u64) -> (r: Result<Value, EvalError>)
    requires
        xs@.len() >= 1,
    ensures
        outcome_is(r, builtin_spec(env.deep(), Builtin::Macro, deep_seq(xs@).drop_first(), (fuel + 1) as nat)),
{
    if xs.len() != 3 {
        return Err(EvalError::Malformed);
    }
    match &xs[1] {
        Value::Symbol(b) => {
            let body = Rc::new(xs[2].share());
            Ok(new_procedure(env, Binder::Macro(b.clone(), body)))
        },
        _ => Err(EvalError::Malformed),
    }
}

/// The bindings made so far, as the model sees them.
pub open spec fn bound_pairs(b: Seq<super::env::Value>) -> Seq<(Seq<char>, Datum)> {
    Seq::new(b.len(), |k: int| (b[k].0@, b[k].1.deep()))
}

/// `(let ((name expr)...) body)`: every `expr` evaluated in `env`, then `body`
/// with all the bindings in one frame.
pub fn let_internal(env: &NameEnv, xs: &Vec<Value>, fuel: u64) -> (r: Result<Value, EvalError>)
    requires
        xs@.len() >= 1,
    ensures
        outcome_is(r, builtin_spec(env.deep(), Builtin::Let, deep_seq(xs@).drop_first(), (fuel + 1) as nat)),
    decreases fuel, 1int,
{
    if xs.len() != 3 {
        return Err(EvalError::Malformed);
    }
    let bs = match &xs[1] {
        Value::List(bs) => bs,
        _ => {
            return Err(EvalError::Malformed);
        },
    };
    proof {
        lemma_list_deep(xs@[1]);
    }
    let ghost all = deep_seq(bs@);
    let ghost n = all.len() as int;
    let mut bound: Vec<super::env::Value> = Vec::new();
    let mut i: usize = 0;
    proof {
        assert(all.subrange(0, n) =~= all);
        assert(bound_pairs(bound@) =~= Seq::<(Seq<char>, Datum)>::empty());
    }
    while i < bs.len()
        invariant
            i <= bs@.len(),
            all == deep_seq(bs@),
            n == all.len(),
            xs@.len() == 3,
            xs@[1].deep() == Datum::List(all),
            let_pairs(env.deep(), all, Seq::empty(), fuel as nat) == let_pairs(
                env.deep(),
                all.subrange(i as int, n),
                bound_pairs(bound@),
                fuel as nat,
            ),
        decreases bs@.len() - i,
    {
        let ghost rest = all.subrange(i as int, n);
        proof {
            assert(rest.drop_first() =~= all.subrange(i + 1, n));
            assert(rest[0] == bs@[i as int].deep());
        }
        if fuel == 0 {
            return Err(EvalError::Exhausted);
        }
        let pair = match &bs[i] {
            Value::List(p) => p,
            _ => {
                return Err(EvalError::Malformed);
            },
        };
        proof {
            lemma_list_deep(bs@[i as int]);
        }
        if pair.len() != 2 {
            return Err(EvalError::Malformed);
        }
        let name = match &pair[0] {
            Value::Symbol(s) => s.clone(),
            _ => {
                return Err(EvalError::Malformed);
            },
        };
        let v = eval(env, &pair[1], fuel - 1);
        match v {
            Ok(v) => {
                let ghost before = bound@;
                bound.push(super::env::Value(name, v));
                proof {
                    assert(bound_pairs(bound@) =~= bound_pairs(before).push((name@, v.deep())));
                }
            },
            Err(e) => {
                return Err(e);
            },
        }
        i += 1;
    }
    proof {
        assert(all.subrange(n, n).len() == 0);
        assert(view_bindings(bound) =~= bound_pairs(bound@));
    }
    let inner = env.bind(Frame::Many(Values(bound)));
    eval(&inner, &xs[2], fuel)
}

/// `(quote x)` is `x`, unevaluated; with other than one argument, the list of them.
pub fn quote_internal(xs: &Vec<Value>, fuel: u64) -> (r: Result<Value, EvalError>)
    requires
        xs@.len() >= 1,
    ensures
        forall|env: super::env::EnvModel|
            outcome_is(r, #[trigger] builtin_spec(env, Builtin::Quote, deep_seq(xs@).drop_first(), (fuel + 1) as nat)),
{
    if xs.len() == 2 {
        Ok(xs[1].share())
    } else {
        Ok(args_list(xs))
    }
}

/// `(quasiquote x)`: `x` rebuilt, each `(unquote y)` in it replaced by the value of `y`.
pub fn quasiquote_internal(env: &NameEnv, xs: &Vec<Value>, fuel: u64) -> (r: Result<Value, EvalError>)
    requires
        xs@.len() >= 1,
    ensures
        outcome_is(r, builtin_spec(env.deep(), Builtin::Quasiquote, deep_seq(xs@).drop_first(), (fuel + 1) as nat)),
    decreases fuel, 1int,
{
    if xs.len() != 2 {
        return Err(EvalError::Malformed);
    }
    quasi(env, &xs[1], fuel)
}

/// Rebuilds `d`, evaluating the `(unquote y)` forms in it.
pub fn quasi(env: &NameEnv, d: &Value, fuel: u64) -> (r: Result<Value, EvalError>)
    ensures
        outcome_is(r, quasi_spec(env.deep(), d.deep(), fuel as nat)),
    decreases fuel, 0int,
{
    if fuel == 0 {
        return Err(EvalError::Exhausted);
    }
    let g = fuel - 1;
    let items = match d {
        Value::List(items) => items,
        _ => {
            return Ok(d.share());
        },
    };
    proof {
        lemma_list_deep(*d);
    }
    let ghost all = deep_seq(items@);
    let ghost n = all.len() as int;
    proof {
        if all.len() >= 1 {
            assert(all[0] == items@[0].deep());
        }
        if all.len() == 2 {
            assert(all[1] == items@[1].deep());
        }
    }
    if items.len() == 2 && is_symbol(&items[0], "unquote") {
        return eval(env, &items[1], g);
    }
    let mut out: Vec<Value> = Vec::new();
    let mut i: usize = 0;
    proof {
        assert(all.subrange(0, n) =~= all);
        assert(deep_seq(out@) =~= Seq::<Datum>::empty());
    }
    while i < items.len()
        invariant
            i <= items@.len(),
            all == deep_seq(items@),
            n == all.len(),
            g == fuel - 1,
            quasi_spec(env.deep(), d.deep(), fuel as nat) == match quasi_each(env.deep(), all, Seq::empty(), g as nat) {
                Ok(vs) => Ok(Datum::List(vs)),
                Err(e) => Err(e),
            },
            quasi_each(env.deep(), all, Seq::empty(), g as nat) == quasi_each(
                env.deep(),
                all.subrange(i as int, n),
                deep_seq(out@),
                g as nat,
            ),
        decreases items@.len() - i,
    {
        let ghost rest = all.subrange(i as int, n);
        proof {
            assert(rest.drop_first() =~= all.subrange(i + 1, n));
            assert(rest[0] == items@[i as int].deep());
        }
        if g == 0 {
            return Err(EvalError::Exhausted);
        }
        match quasi(env, &items[i], g - 1) {
            Ok(v) => {
                let ghost before = out@;
                out.push(v);
                proof {
                    assert(deep_seq(out@) =~= deep_seq(before).push(v.deep()));
                }
            },
            Err(e) => {
                return Err(e);
            },
        }
        i += 1;
    }
    proof {
        assert(all.subrange(n, n).len() == 0);
    }
    let r = Value::List(Rc::new(out));
    proof {
        lemma_list_deep(r);
    }
    Ok(r)
}

/// `(eval x)`: the value of `x`, evaluated once more.
pub fn eval_internal(env: &NameEnv, xs: &Vec<Value>, fuel: u64) -> (r: Result<Value, EvalError>)
    requires
        xs@.len() >= 1,
    ensures
        outcome_is(r, builtin_spec(env.deep(), Builtin::Eval, deep_seq(xs@).drop_first(), (fuel + 1) as nat)),
    decreases fuel, 1int,
{
    if xs.len() != 2 {
        return Err(EvalError::Malformed);
    }
    match eval(env, &xs[1], fuel) {
        Ok(v) => eval(env, &v, fuel),
        Err(e) => Err(e),
    }
}

/// `r` is the environment outcome `s`.
pub open spec fn env_outcome(r: Result<NameEnv, EvalError>, s: Result<super::env::EnvModel, EvalError>) -> bool {
    match s {
        Ok(e) => r is Ok && r->Ok_0.deep() == e,
        Err(e) => r == Err::<NameEnv, EvalError>(e),
    }
}

/// One definition: `(define name expr)`, `(define (name params...) body)` or
/// `(define-macro (name binding) body)`, extending `env`.
pub fn define(env: &NameEnv, d: &Value, fuel: u64) -> (r: Result<NameEnv, EvalError>)
    ensures
        env_outcome(r, define_spec(env.deep(), d.deep(), fuel as nat)),
    decreases fuel, 1int,
{
    if fuel == 0 {
        return Err(EvalError::Exhausted);
    }
    let xs = match d {
        Value::List(xs) => xs,
        _ => {
            return Err(EvalError::Malformed);
        },
    };
    proof {
        lemma_list_deep(*d);
    }
    if xs.len() == 3 && is_symbol(&xs[0], "define") {
        match &xs[1] {
            Value::Symbol(name) => match eval(env, &xs[2], fuel - 1) {
                Ok(v) => Ok(env.bind(Frame::One(super::env::Value(name.clone(), v)))),
                Err(e) => Err(e),
            },
            Value::List(na) => {
                proof {
                    lemma_list_deep(xs@[1]);
                }
                if na.len() == 0 {
                    return Err(EvalError::Malformed);
                }
                match symbol_names(na) {
                    Some(all) => {
                        let name = match &na[0] {
                            Value::Symbol(s) => s.clone(),
                            _ => {
                                return Err(EvalError::Malformed);
                            },
                        };
                        let mut params: Vec<String> = Vec::new();
                        let mut i: usize = 1;
                        let ghost ds = deep_seq(na@);
                        assert(names_of(all@).len() == all@.len());
                        assert(names(ds).len() == ds.len());
                        while i < all.len()
                            invariant
                                1 <= i <= all@.len(),
                                names_of(all@) == names(ds),
                                params@.len() == i - 1,
                                forall|k: int| 0 <= k < i - 1 ==> #[trigger] params@[k] == all@[k + 1],
                            decreases all@.len() - i,
                        {
                            params.push(all[i].clone());
                            i += 1;
                        }
                        proof {
                            assert forall|k: int| 0 <= k < params@.len() implies names_of(params@)[k] == names(ds.drop_first())[k] by {
                                assert(names_of(all@)[k + 1] == names(ds)[k + 1]);
                            }
                            assert(names_of(params@) =~= names(ds.drop_first()));
                        }
                        let body = Rc::new(xs[2].share());
                        let proc = new_procedure(env, Binder::Lambda(Rc::new(params), body));
                        Ok(env.bind(Frame::One(super::env::Value(name, proc))))
                    },
                    None => Err(EvalError::Malformed),
                }
            },
            _ => Err(EvalError::Malformed),
        }
    } else if xs.len() == 3 && is_symbol(&xs[0], "define-macro") {
        let na = match &xs[1] {
            Value::List(na) => na,
            _ => {
                return Err(EvalError::Malformed);
            },
        };
        proof {
            lemma_list_deep(xs@[1]);
        }
        if na.len() != 2 {
            return Err(EvalError::Malformed);
        }
        match (&na[0], &na[1]) {
            (Value::Symbol(name), Value::Symbol(binding)) => {
                let body = Rc::new(xs[2].share());
                let proc = new_procedure(env, Binder::Macro(binding.clone(), body));
                Ok(env.bind(Frame::One(super::env::Value(name.clone(), proc))))
            },
            _ => Err(EvalError::Malformed),
        }
    } else {
        Err(EvalError::Malformed)
    }
}

/// `(begin defines... body)`: the definitions in order, each seeing those
/// before it, then `body` where all of them are bound.
pub fn begin_internal(env: &NameEnv, xs: &Vec<Value>, fuel: u64) -> (r: Result<Value, EvalError>)
    requires
        xs@.len() >= 1,
    ensures
        outcome_is(r, builtin_spec(env.deep(), Builtin::Begin, deep_seq(xs@).drop_first(), (fuel + 1) as nat)),
    decreases fuel, 1int,
{
    if xs.len() < 2 {
        return Err(EvalError::Malformed);
    }
    let ghost args = deep_seq(xs@).drop_first();
    let ghost ds = args.drop_last();
    let ghost m = ds.len() as int;
    let last = xs.len() - 1;
    let mut cur = env.share();
    let mut i: usize = 1;
    proof {
        assert(ds.subrange(0, m) =~= ds);
    }
    while i < last
        invariant
            1 <= i <= last,
            last == xs@.len() - 1,
            args == deep_seq(xs@).drop_first(),
            ds == args.drop_last(),
            m == ds.len(),
            define_all(env.deep(), ds, fuel as nat) == define_all(cur.deep(), ds.subrange(i - 1, m), fuel as nat),
        decreases last - i,
    {
        let ghost rest = ds.subrange(i - 1, m);
        proof {
            assert(rest.drop_first() =~= ds.subrange(i as int, m));
            assert(rest[0] == xs@[i as int].deep());
        }
        if fuel == 0 {
            return Err(EvalError::Exhausted);
        }
        match define(&cur, &xs[i], fuel - 1) {
            Ok(next) => {
                cur = next;
            },
            Err(e) => {
                return Err(e);
            },
        }
        i += 1;
    }
    proof {
        assert(ds.subrange(m, m).len() == 0);
        assert(args.last() == xs@[last as int].deep());
    }
    eval(&cur, &xs[last], fuel)
}

/// `(if? cond pass fail)`: `pass` where `cond` is truthy, else `fail`.
pub fn if_internal(env: &NameEnv, xs: &Vec<Value>, fuel: u64) -> (r: Result<Value, EvalError>)
    requires
        xs@.len() >= 1,
    ensures
        outcome_is(r, builtin_spec(env.deep(), Builtin::If, deep_seq(xs@).drop_first(), (fuel + 1) as nat)),
    decreases fuel, 1int,
{
    if xs.len() != 4 {
        return Err(EvalError::Malformed);
    }
    match eval(env, &xs[1], fuel) {
        Ok(c) => if truthy(&c) {
            eval(env, &xs[2], fuel)
        } else {
            eval(env, &xs[3], fuel)
        },
        Err(e) => Err(e),
    }
}

/// `(guard? (cond body)... fail)`: the body of the first clause whose
/// condition is truthy, else `fail`.
pub fn guard_internal(env: &NameEnv, xs: &Vec<Value>, fuel: u64) -> (r: Result<Value, EvalError>)
    requires
        xs@.len() >= 1,
    ensures
        outcome_is(r, builtin_spec(env.deep(), Builtin::Guard, deep_seq(xs@).drop_first(), (fuel + 1) as nat)),
    decreases fuel, 1int,
{
    if xs.len() < 2 {
        return Err(EvalError::Malformed);
    }
    let ghost args = deep_seq(xs@).drop_first();
    let ghost bs = args.drop_last();
    let last = xs.len() - 1;
    let mut i: usize = 1;
    while i < last
        invariant
            1 <= i <= last,
            last == xs@.len() - 1,
            args == deep_seq(xs@).drop_first(),
            bs == args.drop_last(),
            args.len() >= 1,
            guard_from(env.deep(), bs, 0, fuel as nat) == guard_from(env.deep(), bs, i - 1, fuel as nat),
        decreases last - i,
    {
        proof {
            assert(bs[i - 1] == xs@[i as int].deep());
        }
        if fuel == 0 {
            return Err(EvalError::Exhausted);
        }
        let clause = match &xs[i] {
            Value::List(c) => c,
            _ => {
                return Err(EvalError::Malformed);
            },
        };
        proof {
            lemma_list_deep(xs@[i as int]);
        }
        if clause.len() != 2 {
            return Err(EvalError::Malformed);
        }
        match eval(env, &clause[0], fuel - 1) {
            Ok(c) => if truthy(&c) {
                return eval(env, &clause[1], fuel - 1);
            },
            Err(e) => {
                return Err(e);
            },
        }
        i += 1;
    }
    proof {
        assert(args.last() == xs@[last as int].deep());
    }
    eval(env, &xs[last], fuel)
}

/// `(pmatch? subject (pattern [guard] body)... fail)`: the body of the first
/// clause whose pattern matches the value of `subject` (and whose guard holds
/// there), evaluated where the match bound its names; else `fail`.
pub fn pmatch_internal(env: &NameEnv, xs: &Vec<Value>, fuel: u64) -> (r: Result<Value, EvalError>)
    requires
        xs@.len() >= 1,
    ensures
        outcome_is(r, builtin_spec(env.deep(), Builtin::Pmatch, deep_seq(xs@).drop_first(), (fuel + 1) as nat)),
    decreases fuel, 1int,
{
    if xs.len() < 3 {
        return Err(EvalError::Malformed);
    }
    let ghost args = deep_seq(xs@).drop_first();
    let ghost bs = args.subrange(1, args.len() - 1);
    let subject = match eval(env, &xs[1], fuel) {
        Ok(v) => v,
        Err(e) => {
            return Err(e);
        },
    };
    proof {
        assert(args[0] == xs@[1].deep());
    }
    let last = xs.len() - 1;
    let mut i: usize = 2;
    while i < last
        invariant
            2 <= i <= last,
            last == xs@.len() - 1,
            args == deep_seq(xs@).drop_first(),
            bs == args.subrange(1, args.len() - 1),
            args.len() >= 2,
            eval_spec(env.deep(), args[0], fuel as nat) == Ok::<Datum, EvalError>(subject.deep()),
            pmatch_from(env.deep(), subject.deep(), bs, 0, fuel as nat) == pmatch_from(
                env.deep(),
                subject.deep(),
                bs,
                i - 2,
                fuel as nat,
            ),
        decreases last - i,
    {
        proof {
            assert(bs[i - 2] == xs@[i as int].deep());
        }
        if fuel == 0 {
            return Err(EvalError::Exhausted);
        }
        let clause = match &xs[i] {
            Value::List(c) => c,
            _ => {
                return Err(EvalError::Malformed);
            },
        };
        proof {
            lemma_list_deep(xs@[i as int]);
        }
        if clause.len() == 2 {
            match structure_match(env, &subject, &clause[0]) {
                Ok(Some(bound)) => {
                    return eval(&bound, &clause[1], fuel - 1);
                },
                Ok(None) => {},
                Err(e) => {
                    return Err(e);
                },
            }
        } else if clause.len() == 3 {
            match structure_match(env, &subject, &clause[0]) {
                Ok(Some(bound)) => match eval(&bound, &clause[1], fuel - 1) {
                    Ok(g) => if truthy(&g) {
                        return eval(&bound, &clause[2], fuel - 1);
                    },
                    Err(e) => {
                        return Err(e);
                    },
                },
                Ok(None) => {},
                Err(e) => {
                    return Err(e);
                },
            }
        } else {
            return Err(EvalError::Malformed);
        }
        i += 1;
    }
    proof {
        assert(args.last() == xs@[last as int].deep());
    }
    eval(env, &xs[last], fuel)
}

/// `r` is the match outcome `s`.
pub open spec fn match_outcome(
    r: Result<Option<NameEnv>, EvalError>,
    s: Result<Option<super::env::EnvModel>, EvalError>,
) -> bool {
    match s {
        Ok(Some(e)) => r is Ok && r->Ok_0 is Some && r->Ok_0->Some_0.deep() == e,
        Ok(None) => r == Ok::<Option<NameEnv>, EvalError>(None),
        Err(e) => r == Err::<Option<NameEnv>, EvalError>(e),
    }
}

/// Matches `subject` against `pattern`, as [`match_spec`] says.
pub fn structure_match(env: &NameEnv, subject: &Value, pattern: &Value) -> (r: Result<Option<NameEnv>, EvalError>)
    ensures
        match_outcome(r, match_spec(env.deep(), subject.deep(), pattern.deep())),
    decreases *pattern,
{
    match pattern {
        Value::Symbol(id) => Ok(Some(env.bind(Frame::One(super::env::Value(id.clone(), subject.share()))))),
        Value::List(ps) => {
            let ghost pd = deep_seq(ps@);
            proof {
                lemma_list_deep(*pattern);
            }
            if ps.len() >= 1 {
                assert(pd[0] == ps@[0].deep());
            }
            if ps.len() >= 1 && is_symbol(&ps[0], "quote") {
                if ps.len() == 2 {
                    if values_same(subject, &ps[1]) {
                        Ok(Some(env.share()))
                    } else {
                        Ok(None)
                    }
                } else {
                    Err(EvalError::Malformed)
                }
            } else {
                let ss = match subject {
                    Value::List(ss) => ss,
                    _ => {
                        return Ok(None);
                    },
                };
                let ghost sd = deep_seq(ss@);
                proof {
                    lemma_list_deep(*subject);
                }
                let mut cur = env.share();
                let mut i: usize = 0;
                assert(match_spec(env.deep(), subject.deep(), pattern.deep()) == match_from(env.deep(), sd, pd, 0));
                while i < ps.len() && i < ss.len()
                    invariant
                        i <= ps@.len(),
                        pd == deep_seq(ps@),
                        sd == deep_seq(ss@),
                        pattern.deep() == Datum::List(pd),
                        *pattern == Value::List(*ps),
                        match_spec(env.deep(), subject.deep(), pattern.deep()) == match_from(env.deep(), sd, pd, 0),
                        match_from(env.deep(), sd, pd, 0) == match_from(cur.deep(), sd, pd, i as int),
                    decreases ps@.len() - i,
                {
                    proof {
                        assert(decreases_to!(**ps => ps@[i as int]));
                        assert(pd[i as int] == ps@[i as int].deep());
                        assert(sd[i as int] == ss@[i as int].deep());
                    }
                    match structure_match(&cur, &ss[i], &ps[i]) {
                        Ok(Some(next)) => {
                            cur = next;
                        },
                        Ok(None) => {
                            return Ok(None);
                        },
                        Err(e) => {
                            return Err(e);
                        },
                    }
                    i += 1;
                }
                Ok(Some(cur))
            }
        },
        _ => {
            if values_same(subject, pattern) {
                Ok(Some(env.share()))
            } else {
                Ok(None)
            }
        },
    }
}

/// Two lists of names spell the same names in the same order.
fn names_equal(a: &Vec<String>, b: &Vec<String>) -> (r: bool)
    ensures
        r == (names_of(a@) == names_of(b@)),
{
    if a.len() != b.len() {
        proof {
            assert(names_of(a@).len() != names_of(b@).len());
        }
        return false;
    }
    let mut i: usize = 0;
    while i < a.len()
        invariant
            i <= a@.len(),
            a@.len() == b@.len(),
            forall|k: int| 0 <= k < i ==> a@[k]@ == b@[k]@,
        decreases a@.len() - i,
    {
        if a[i] != b[i] {
            proof {
                assert(names_of(a@)[i as int] != names_of(b@)[i as int]);
            }
            return false;
        }
        i += 1;
    }
    assert(names_of(a@) =~= names_of(b@));
    true
}

/// Structural equality of two values, as [`same`] says.
pub fn values_same(a: &Value, b: &Value) -> (r: bool)
    ensures
        r == same(a.deep(), b.deep()),
    decreases *a,
{
    match (a, b) {
        (Value::Symbol(x), Value::Symbol(y)) => *x == *y,
        (Value::Bool(x), Value::Bool(y)) => *x == *y,
        (Value::List(xs), Value::List(ys)) => {
            let ghost xd = deep_seq(xs@);
            let ghost yd = deep_seq(ys@);
            proof {
                lemma_list_deep(*a);
                lemma_list_deep(*b);
            }
            if xs.len() != ys.len() {
                return false;
            }
            let mut i: usize = 0;
            while i < xs.len()
                invariant
                    i <= xs@.len(),
                    xs@.len() == ys@.len(),
                    xd == deep_seq(xs@),
                    yd == deep_seq(ys@),
                    a.deep() == Datum::List(xd),
                    b.deep() == Datum::List(yd),
                    *a == Value::List(*xs),
                    same_from(xd, yd, 0) == same_from(xd, yd, i as int),
                decreases xs@.len() - i,
            {
                proof {
                    assert(decreases_to!(**xs => xs@[i as int]));
                    assert(decreases_to!(*a => xs@[i as int]));
                    assert(xd[i as int] == xs@[i as int].deep());
                    assert(yd[i as int] == ys@[i as int].deep());
                }
                if !values_same(&xs[i], &ys[i]) {
                    return false;
                }
                i += 1;
            }
            true
        },
        (Value::Procedure(p), Value::Procedure(q)) => match (&p.binder, &q.binder) {
            (Binder::Builtin(x), Binder::Builtin(y)) => *x == *y,
            (Binder::Lambda(ps, x), Binder::Lambda(qs, y)) => {
                proof {
                    assert(decreases_to!(*a => **x));
                }
                names_equal(ps, qs) && values_same(x, y)
            },
            (Binder::Macro(n, x), Binder::Macro(m, y)) => {
                proof {
                    assert(decreases_to!(*a => **x));
                }
                *n == *m && values_same(x, y)
            },
            _ => false,
        },
        _ => false,
    }
}

} // verus!

verus! {

fn builtin_value(env: NameEnv, k: Builtin) -> (r: Value)
    ensures
        r.deep() == Datum::Procedure(env.deep(), Callable::Builtin(k)),
{
    Value::Procedure(Rc::new(Procedure { env, binder: Binder::Builtin(k) }))
}

/// The `lambda` form, defined in `env`.
pub fn lambda(env: NameEnv) -> (r: Value)
    ensures
        r.deep() == Datum::Procedure(env.deep(), Callable::Builtin(Builtin::Lambda)),
{
    builtin_value(env, Builtin::Lambda)
}

/// The `macro` form, defined in `env`.
pub fn lambda_macro(env: NameEnv) -> (r: Value)
    ensures
        r.deep() == Datum::Procedure(env.deep(), Callable::Builtin(Builtin::Macro)),
{
    builtin_value(env, Builtin::Macro)
}

/// The `let` form, defined in `env`.
pub fn bind_let(env: NameEnv) -> (r: Value)
    ensures
        r.deep() == Datum::Procedure(env.deep(), Callable::Builtin(Builtin::Let)),
{
    builtin_value(env, Builtin::Let)
}

/// The `quote` form, defined in `env`.
pub fn quote(env: NameEnv) -> (r: Value)
    ensures
        r.deep() == Datum::Procedure(env.deep(), Callable::Builtin(Builtin::Quote)),
{
    builtin_value(env, Builtin::Quote)
}

/// The `quasiquote` form, defined in `env`.
pub fn quasiquote(env: NameEnv) -> (r: Value)
    ensures
        r.deep() == Datum::Procedure(env.deep(), Callable::Builtin(Builtin::Quasiquote)),
{
    builtin_value(env, Builtin::Quasiquote)
}

/// The `eval` form, defined in `env`.
pub fn embed_eval(env: NameEnv) -> (r: Value)
    ensures
        r.deep() == Datum::Procedure(env.deep(), Callable::Builtin(Builtin::Eval)),
{
    builtin_value(env, Builtin::Eval)
}

/// The `begin` form, defined in `env`.
pub fn begin(env: NameEnv) -> (r: Value)
    ensures
        r.deep() == Datum::Procedure(env.deep(), Callable::Builtin(Builtin::Begin)),
{
    builtin_value(env, Builtin::Begin)
}

/// The `if?` form, defined in `env`.
pub fn if_cond(env: NameEnv) -> (r: Value)
    ensures
        r.deep() == Datum::Procedure(env.deep(), Callable::Builtin(Builtin::If)),
{
    builtin_value(env, Builtin::If)
}

/// The `guard?` form, defined in `env`.
pub fn guard(env: NameEnv) -> (r: Value)
    ensures
        r.deep() == Datum::Procedure(env.deep(), Callable::Builtin(Builtin::Guard)),
{
    builtin_value(env, Builtin::Guard)
}

/// The `pmatch?` form, defined in `env`.
pub fn pmatch(env: NameEnv) -> (r: Value)
    ensures
        r.deep() == Datum::Procedure(env.deep(), Callable::Builtin(Builtin::Pmatch)),
{
    builtin_value(env, Builtin::Pmatch)
}

} // verus!
