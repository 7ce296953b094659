use slisp::ast::sl;
use slisp::fastpass::View;
use slisp::interpreter::env::{Lookup, NameEnv, Values};
use slisp::interpreter::semantics::EvalError;
use slisp::interpreter::values::Value;
use slisp::interpreter::inbuilt::values_same;
use slisp::interpreter::{eval, interpret, root_env};

fn run_with(src: &str, fuel: u64) -> Result<String, EvalError> {
    let program = sl(View::new(src)).ok().unwrap();
    interpret(&program, fuel).map(|v| v.render())
}

fn run(src: &str) -> Result<String, EvalError> {
    run_with(src, 10_000)
}

#[test]
fn identity_application() {
    assert_eq!(run("((lambda (x) x) #t)"), Ok("#t".to_string()));
}

#[test]
fn let_bindings_do_not_see_each_other() {
    assert_eq!(run("(let ((x #t) (y x)) y)"), Err(EvalError::Unbound));
    assert_eq!(run("(let ((x #t) (y #f)) y)"), Ok("#f".to_string()));
}

#[test]
fn quote_returns_the_list_unevaluated() {
    assert_eq!(run("(quote (a b))"), Ok("(a b)".to_string()));
    assert_eq!(run("(quote a b)"), Ok("(a b)".to_string()));
}

#[test]
fn pmatch_quote_and_symbol_patterns() {
    assert_eq!(run("(pmatch? (quote foo) ((quote foo) #t) #f)"), Ok("#t".to_string()));
    assert_eq!(run("(pmatch? (quote bar) ((quote foo) #t) #f)"), Ok("#f".to_string()));
    assert_eq!(run("(pmatch? (quote bar) (x x) #f)"), Ok("bar".to_string()));
    assert_eq!(run("(pmatch? (quote (foo)) ((quote foo) #t) #f)"), Ok("#f".to_string()));
}

#[test]
fn pmatch_list_patterns_ignore_extra_elements() {
    assert_eq!(run("(pmatch? (quote (a b c)) ((x y) y) #f)"), Ok("b".to_string()));
    assert_eq!(run("(pmatch? (quote a) ((x y) y) #f)"), Ok("#f".to_string()));
}

#[test]
fn pmatch_guard_must_hold() {
    assert_eq!(run("(pmatch? (quote (a)) ((x) #f x) ((y) #t y) #f)"), Ok("a".to_string()));
    assert_eq!(run("(pmatch? (quote a) (x (quote ()) x) #t)"), Ok("#t".to_string()));
}

#[test]
fn begin_accumulates_definitions() {
    let src = "(define t #t) (define (id x) x) (id t)";
    assert_eq!(run(src), Ok("#t".to_string()));
}

#[test]
fn define_macro_sees_raw_forms() {
    let src = "(define-macro (first args) (pmatch? args ((a b) a) #f)) (first x y)";
    assert_eq!(run(src), Ok("x".to_string()));
    assert_eq!(run("((macro all all) p q)"), Ok("(p q)".to_string()));
}

#[test]
fn quasiquote_rebuilds_with_unquote() {
    let src = "(define v #t) (quasiquote (a (unquote v) (b (unquote v))))";
    assert_eq!(run(src), Ok("(a #t (b #t))".to_string()));
    assert_eq!(run("(quasiquote (a))"), Ok("(a)".to_string()));
}

#[test]
fn if_uses_truthiness() {
    assert_eq!(run("(if? #f a b)"), Err(EvalError::Unbound));
    assert_eq!(run("(if? (quote ()) (quote yes) (quote no))"), Ok("no".to_string()));
    assert_eq!(run("(if? (quote (x)) (quote yes) (quote no))"), Ok("yes".to_string()));
    assert_eq!(run("(if? (quote s) (quote yes) (quote no))"), Ok("yes".to_string()));
}

#[test]
fn guard_takes_first_truthy_clause() {
    assert_eq!(run("(guard? (#f (quote a)) (#t (quote b)) (quote c))"), Ok("b".to_string()));
    assert_eq!(run("(guard? (#f (quote a)) (quote c))"), Ok("c".to_string()));
}

#[test]
fn eval_evaluates_again() {
    assert_eq!(run("(define x #t) (eval (quote x))"), Ok("#t".to_string()));
}

#[test]
fn evaluation_errors() {
    assert_eq!(run("(#t)"), Err(EvalError::NotCallable));
    assert_eq!(run("(if? #t)"), Err(EvalError::Malformed));
    assert_eq!(run("((lambda (x) x))"), Err(EvalError::Arity));
    assert_eq!(run("nowhere"), Err(EvalError::Unbound));
    assert_eq!(run_with("((lambda (x) x) #t)", 3), Err(EvalError::Exhausted));
}

#[test]
fn runaway_recursion_is_stopped() {
    let src = "((lambda (f) (f f)) (lambda (f) (f f)))";
    assert_eq!(run_with(src, 200), Err(EvalError::Exhausted));
}

#[test]
fn procedures_print_as_placeholder() {
    assert_eq!(run("lambda"), Ok("(procedure (bindings...) body)".to_string()));
    assert_eq!(run("pmatch?"), Ok("(procedure (structure [guard?] body)... fail)".to_string()));
    assert_eq!(run("(lambda (x y) x)"), Ok("(procedure (x y))".to_string()));
    assert_eq!(run("(lambda () x)"), Ok("(procedure ())".to_string()));
    assert_eq!(run("(macro all all)"), Ok("(procedure all)".to_string()));
}

#[test]
fn closures_are_lexically_scoped() {
    assert_eq!(run("(define f (lambda () y)) (define y #t) (f)"), Err(EvalError::Unbound));
    assert_eq!(run("(define x #t) ((let ((x #f)) (lambda (z) z)) x)"), Ok("#t".to_string()));
    assert_eq!(run("(define x #t) ((let ((x #f)) (lambda (z) x)) x)"), Ok("#f".to_string()));
}

#[test]
fn recursion_passes_the_function_along() {
    let src = "(define (dig self x) (pmatch? x ((quote done) (quote found)) ((inner) (self self inner)) #f)) (dig dig (quote (((done)))))";
    assert_eq!(run(src), Ok("found".to_string()));
}

#[test]
fn macro_body_runs_in_the_caller_environment() {
    assert_eq!(run("(define x #t) (define-macro (m a) x) (let ((x #f)) (m))"), Ok("#f".to_string()));
}

#[test]
fn procedure_equality_is_reflexive() {
    let program = sl(View::new("(lambda (x) x)")).ok().unwrap();
    let a = interpret(&program, 100).unwrap();
    let program = sl(View::new("(lambda (y) y)")).ok().unwrap();
    let b = interpret(&program, 100).unwrap();
    assert!(values_same(&a, &a));
    assert!(values_same(&a, &a.share()));
    assert!(!values_same(&a, &b));
    let q = interpret(&sl(View::new("quote")).ok().unwrap(), 100).unwrap();
    assert!(values_same(&q, &q));
    assert!(!values_same(&q, &a));
}

#[test]
fn environment_shadowing_and_lookup() {
    let root = root_env();
    assert!(root.lookup(&"quote".to_string()).is_some());
    assert!(root.lookup(&"nothing".to_string()).is_none());
    let inner = root.bind(slisp::interpreter::env::Frame::Many(Values::new(vec![
        slisp::interpreter::env::Value("quote".to_string(), Value::Bool(true)),
    ])));
    assert_eq!(inner.lookup(&"quote".to_string()).unwrap().render(), "#t");
    assert_eq!(root.lookup(&"quote".to_string()).unwrap().render(), "(procedure symbol)");
    let empty = NameEnv::new();
    assert!(eval(&empty, &Value::Symbol("x".to_string()), 10).is_err());
}
