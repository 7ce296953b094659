use std::rc::Rc;
use vstd::prelude::*;

use super::env::{EnvModel, NameEnv};

verus! {

/// The forms seeded into the root environment.
#[derive(PartialEq, Eq, Structural, Clone, Copy, Debug)]
pub enum Builtin {
    Lambda,
    Macro,
    Let,
    Quote,
    Quasiquote,
    Eval,
    Begin,
    If,
    Guard,
    Pmatch,
}

/// How a procedure binds and evaluates the argument forms it is given.
#[derive(Debug)]
pub enum Binder {
    Builtin(Builtin),
    /// Parameter names and body of a closure.
    Lambda(Rc<Vec<String>>, Rc<Value>),
    /// The name that receives the unevaluated argument list, and the body.
    Macro(String, Rc<Value>),
}

/// A procedure: its defining environment and its binder.
#[derive(Debug)]
pub struct Procedure {
    pub env: NameEnv,
    pub binder: Binder,
}

/// A value of the language. Lists and procedures are shared, never copied.
#[derive(Debug)]
pub enum Value {
    Procedure(Rc<Procedure>),
    Symbol(String),
    Bool(bool),
    List(Rc<Vec<Value>>),
}

/// The mathematical model of a binder.
pub enum Callable {
    Builtin(Builtin),
    Lambda(Seq<Seq<char>>, Box<Datum>),
    Macro(Seq<char>, Box<Datum>),
}

/// The mathematical model of a value.
pub enum Datum {
    Procedure(EnvModel, Callable),
    Symbol(Seq<char>),
    Bool(bool),
    List(Seq<Datum>),
}

pub open spec fn view_value(v: Value) -> Datum
    decreases v, 0int,
{
    match v {
        Value::Procedure(p) => Datum::Procedure(super::env::view_env(p.env), view_binder(p.binder)),
        Value::Symbol(s) => Datum::Symbol(s@),
        Value::Bool(b) => Datum::Bool(b),
        Value::List(xs) => Datum::List(view_values(*xs)),
    }
}

pub open spec fn view_values(xs: Vec<Value>) -> Seq<Datum>
    decreases xs, 0int,
{
    Seq::new(
        xs@.len(),
        |i: int|
            {
                if 0 <= i < xs@.len() {
                    proof {
                        broadcast use vstd::std_specs::vec::axiom_vec_index_decreases;

                    }
                    view_value(xs@[i])
                } else {
                    Datum::Bool(false)
                }
            },
    )
}

pub open spec fn view_binder(b: Binder) -> Callable
    decreases b, 0int,
{
    match b {
        Binder::Builtin(k) => Callable::Builtin(k),
        Binder::Lambda(names, body) => Callable::Lambda(
            names_of(names@),
            Box::new(view_value(*body)),
        ),
        Binder::Macro(name, body) => Callable::Macro(name@, Box::new(view_value(*body))),
    }
}

/// The texts of a run of names.
pub open spec fn names_of(v: Seq<String>) -> Seq<Seq<char>> {
    Seq::new(v.len(), |i: int| v[i]@)
}

/// The model of a list value is the list of its elements' models.
pub proof fn lemma_list_deep(v: Value)
    requires
        v is List,
    ensures
        v.deep() == Datum::List(deep_seq(v->List_0@)),
{
    assert(view_values(*v->List_0) == deep_seq(v->List_0@));
}

/// The models of a run of values.
pub open spec fn deep_seq(vs: Seq<Value>) -> Seq<Datum> {
    Seq::new(vs.len(), |k: int| vs[k].deep())
}

pub broadcast proof fn lemma_view_values(xs: Vec<Value>)
    ensures
        #[trigger] view_values(xs) == deep_seq(xs@),
{
    assert(view_values(xs) =~= deep_seq(xs@));
}

impl Value {
    pub open spec fn deep(&self) -> Datum {
        view_value(*self)
    }

    /// Another handle on the same value: lists and procedures are shared.
    pub fn share(&self) -> (r: Value)
        ensures
            r == *self,
    {
        match self {
            Value::Procedure(p) => Value::Procedure(Rc::clone(p)),
            Value::Symbol(s) => Value::Symbol(s.clone()),
            Value::Bool(b) => Value::Bool(*b),
            Value::List(xs) => Value::List(Rc::clone(xs)),
        }
    }
}

} // verus!

verus! {

broadcast use vstd::std_specs::vec::axiom_vec_index_decreases;

/// The text of a value: symbols verbatim, `#t` / `#f`, lists as their
/// elements between parentheses separated by single spaces, and procedures as
/// the opaque `(procedure <binder>)`, which does not read back.
pub open spec fn print_spec(d: Datum) -> Seq<char>
    decreases d, 0int,
{
    match d {
        Datum::Symbol(s) => s,
        Datum::Bool(b) => if b {
            "#t"@
        } else {
            "#f"@
        },
        Datum::List(xs) => "("@ + print_items(xs, 0) + ")"@,
        Datum::Procedure(_, c) => "(procedure "@ + binder_text(c) + ")"@,
    }
}

/// How a built-in form is used.
pub open spec fn builtin_usage(k: Builtin) -> Seq<char> {
    match k {
        Builtin::Lambda => "(bindings...) body"@,
        Builtin::Macro => "binding body"@,
        Builtin::Let => "((binding value)...) body"@,
        Builtin::Quote => "symbol"@,
        Builtin::Quasiquote => "symbol"@,
        Builtin::Eval => "symbol"@,
        Builtin::Begin => "((define-form)...) body"@,
        Builtin::If => "cond pass-body fail-body"@,
        Builtin::Guard => "(guard? body)... fail"@,
        Builtin::Pmatch => "(structure [guard?] body)... fail"@,
    }
}

/// What a procedure shows of its binder: a built-in form's usage, a closure's
/// parameter list, a macro's binding.
pub open spec fn binder_text(c: Callable) -> Seq<char> {
    match c {
        Callable::Builtin(k) => builtin_usage(k),
        Callable::Lambda(ps, _) => "("@ + names_text(ps, 0) + ")"@,
        Callable::Macro(b, _) => b,
    }
}

/// The names of `ps` from `i` on, separated by single spaces.
pub open spec fn names_text(ps: Seq<Seq<char>>, i: int) -> Seq<char>
    decreases ps.len() - i,
{
    if 0 <= i < ps.len() {
        if i + 1 < ps.len() {
            ps[i] + " "@ + names_text(ps, i + 1)
        } else {
            ps[i]
        }
    } else {
        Seq::empty()
    }
}

/// The elements of `xs` from `i` on, separated by single spaces.
pub open spec fn print_items(xs: Seq<Datum>, i: int) -> Seq<char>
    decreases xs, xs.len() - i,
{
    if 0 <= i < xs.len() {
        if i + 1 < xs.len() {
            print_spec(xs[i]) + " "@ + print_items(xs, i + 1)
        } else {
            print_spec(xs[i])
        }
    } else {
        Seq::empty()
    }
}

} // verus!
