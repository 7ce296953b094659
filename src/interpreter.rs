//! The evaluator: `eval` and `invoke` over [`Value`]s, with the built-in forms
//! in [`inbuilt`]. What each returns is what [`semantics`] says.

use vstd::prelude::*;

pub mod display;
pub mod env;
pub mod inbuilt;
pub mod semantics;
pub mod values;

use env::{Frame, Lookup, NameEnv};
use semantics::{apply_spec, eval_spec, invoke_spec, EvalError, Outcome};
use values::{deep_seq, view_binder, Binder, Builtin, Datum, Value};

verus! {

broadcast use values::lemma_view_values;

/// `r` is the outcome `s`: the same error, or a value whose model is the result.
pub open spec fn outcome_is(r: Result<Value, EvalError>, s: Outcome) -> bool {
    match s {
        Ok(d) => r is Ok && r->Ok_0.deep() == d,
        Err(e) => r == Err::<Value, EvalError>(e),
    }
}

/// Evaluates `expr` in `env`: a symbol is looked up, a list is invoked,
/// anything else is its own value.
pub fn eval(env: &NameEnv, expr: &Value, fuel: u64) -> (r: Result<Value, EvalError>)
    ensures
        outcome_is(r, eval_spec(env.deep(), expr.deep(), fuel as nat)),
    decreases fuel, 0int,
{
    if fuel == 0 {
        return Err(EvalError::Exhausted);
    }
    match expr {
        Value::Symbol(s) => Value::from_env(env, s),
        Value::List(xs) => {
            let r = invoke(env, xs, fuel - 1);
            proof {
                assert(expr.deep() == Datum::List(values::view_values(**xs)));
                assert(values::view_values(**xs) == deep_seq(xs@));
            }
            r
        },
        _ => Ok(expr.share()),
    }
}

/// Invokes the form `xs`: evaluates its head, which must be a procedure, and
/// hands its binder the argument forms unevaluated.
pub fn invoke(env: &NameEnv, xs: &Vec<Value>, fuel: u64) -> (r: Result<Value, EvalError>)
    ensures
        outcome_is(r, invoke_spec(env.deep(), deep_seq(xs@), fuel as nat)),
    decreases fuel, 0int,
{
    if fuel == 0 {
        return Err(EvalError::Exhausted);
    }
    if xs.len() == 0 {
        return Err(EvalError::NotCallable);
    }
    let head = eval(env, &xs[0], fuel - 1);
    match head {
        Err(e) => Err(e),
        Ok(Value::Procedure(p)) => apply(env, &p.env, &p.binder, xs, fuel - 1),
        Ok(_) => Err(EvalError::NotCallable),
    }
}

/// Hands the argument forms `xs[1..]` to a binder made in `penv`.
fn apply(env: &NameEnv, penv: &NameEnv, binder: &Binder, xs: &Vec<Value>, fuel: u64) -> (r: Result<Value, EvalError>)
    requires
        xs@.len() >= 1,
    ensures
        outcome_is(r, apply_spec(env.deep(), penv.deep(), view_binder(*binder), deep_seq(xs@).drop_first(), fuel as nat)),
    decreases fuel, 0int,
{
    if fuel == 0 {
        return Err(EvalError::Exhausted);
    }
    match binder {
        Binder::Lambda(params, body) => inbuilt::call_closure(env, penv, params, body, xs, fuel - 1),
        Binder::Macro(binding, body) => inbuilt::call_macro(env, binding, body, xs, fuel - 1),
        Binder::Builtin(k) => inbuilt::call_builtin(env, *k, xs, fuel - 1),
    }
}

/// The builtin `k` as the root environment holds it, under its name.
pub open spec fn seeded(name: &str, k: Builtin) -> (Seq<char>, Datum) {
    (name@, Datum::Procedure(env::EnvModel::Root, values::Callable::Builtin(k)))
}

/// The root environment: one frame with every built-in form.
pub open spec fn root_model() -> env::EnvModel {
    env::extend(
        env::EnvModel::Root,
        env::FrameModel::Pairs(
            seq![
                seeded("lambda", Builtin::Lambda),
                seeded("macro", Builtin::Macro),
                seeded("begin", Builtin::Begin),
                seeded("let", Builtin::Let),
                seeded("quote", Builtin::Quote),
                seeded("quasiquote", Builtin::Quasiquote),
                seeded("guard?", Builtin::Guard),
                seeded("pmatch?", Builtin::Pmatch),
                seeded("if?", Builtin::If),
                seeded("eval", Builtin::Eval),
            ],
        ),
    )
}

fn seed(name: &str, v: Value) -> (r: env::Value)
    ensures
        r.0@ == name@,
        r.1 == v,
{
    env::Value(name.to_owned(), v)
}

/// A fresh root environment with the built-in forms installed.
pub fn root_env() -> (r: NameEnv)
    ensures
        r.deep() == root_model(),
{
    let base = NameEnv::new();
    let mut forms: Vec<env::Value> = Vec::new();
    forms.push(seed("lambda", inbuilt::lambda(base.share())));
    forms.push(seed("macro", inbuilt::lambda_macro(base.share())));
    forms.push(seed("begin", inbuilt::begin(base.share())));
    forms.push(seed("let", inbuilt::bind_let(base.share())));
    forms.push(seed("quote", inbuilt::quote(base.share())));
    forms.push(seed("quasiquote", inbuilt::quasiquote(base.share())));
    forms.push(seed("guard?", inbuilt::guard(base.share())));
    forms.push(seed("pmatch?", inbuilt::pmatch(base.share())));
    forms.push(seed("if?", inbuilt::if_cond(base.share())));
    forms.push(seed("eval", inbuilt::embed_eval(base.share())));
    let r = base.bind(Frame::Many(env::Values(forms)));
    proof {
        assert(env::view_bindings(forms) =~= root_model()->Bind_0->Pairs_0);
    }
    r
}

/// What running a program means: its expressions as the body of one `begin`
/// form (all but the last are definitions), invoked in the root environment.
pub open spec fn run_spec(program: Datum, fuel: nat) -> Outcome {
    let begin_form = Datum::Procedure(env::EnvModel::Root, values::Callable::Builtin(Builtin::Begin));
    match program {
        Datum::List(xs) => invoke_spec(root_model(), seq![begin_form] + xs, fuel),
        Datum::Symbol(_) => invoke_spec(root_model(), seq![begin_form, program], fuel),
        _ => Err(EvalError::Malformed),
    }
}

/// Runs a parsed program in a fresh root environment.
pub fn interpret(program: &Value, fuel: u64) -> (r: Result<Value, EvalError>)
    ensures
        outcome_is(r, run_spec(program.deep(), fuel as nat)),
{
    let root = root_env();
    let mut form: Vec<Value> = Vec::new();
    form.push(inbuilt::begin(NameEnv::new()));
    match program {
        Value::List(xs) => {
            let mut i: usize = 0;
            while i < xs.len()
                invariant
                    i <= xs@.len(),
                    form@.len() == i + 1,
                    form@[0].deep() == Datum::Procedure(env::EnvModel::Root, values::Callable::Builtin(Builtin::Begin)),
                    forall|k: int| 0 <= k < i ==> #[trigger] form@[k + 1] == xs@[k],
                decreases xs@.len() - i,
            {
                form.push(xs[i].share());
                i += 1;
            }
            proof {
                values::lemma_list_deep(*program);
                let lhs = deep_seq(form@);
                let rhs = seq![form@[0].deep()] + deep_seq(xs@);
                assert forall|k: int| 0 <= k < lhs.len() implies lhs[k] == rhs[k] by {
                    if k > 0 {
                        assert(form@[(k - 1) + 1] == xs@[k - 1]);
                    }
                }
                assert(lhs =~= rhs);
            }
        },
        Value::Symbol(_) => {
            form.push(program.share());
            proof {
                assert(deep_seq(form@) =~= seq![form@[0].deep(), program.deep()]);
            }
        },
        _ => {
            return Err(EvalError::Malformed);
        },
    }
    invoke(&root, &form, fuel)
}

} // verus!

verus! {

impl Value {
    /// The value bound to `name` in `env`; an unbound name is an error.
    pub fn from_env(env: &NameEnv, name: &String) -> (r: Result<Value, EvalError>)
        ensures
            match env::env_lookup(env.deep(), name@) {
                Some(d) => r is Ok && r->Ok_0.deep() == d,
                None => r == Err::<Value, EvalError>(EvalError::Unbound),
            },
    {
        match env.lookup(name) {
            Some(v) => Ok(v),
            None => Err(EvalError::Unbound),
        }
    }
}

} // verus!
