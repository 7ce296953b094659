use slisp::ast::{bool, comment, sl, symbol, whitespace};
use slisp::fastpass::{Either, ErrorMessage, View};
use slisp::interpreter::values::Value;

fn read(src: &str) -> Value {
    sl(View::new(src)).ok().unwrap()
}

#[test]
fn symbol_test() {
    let buf = View::new("abc");
    let res = symbol(buf);
    assert!(res.is_ok());
    let (buf, res) = res.unwrap();
    assert_eq!("", buf.as_str());
    match res {
        Value::Symbol(res) => assert_eq!("abc", res),
        _ => panic!(),
    }
}

#[test]
fn comment_test() {
    let buf = View::new(";    ");
    let res = comment(buf);
    assert!(res.is_ok());
    let (buf, _) = res.unwrap();
    assert_eq!("", buf.as_str());
}

#[test]
fn blank_program_is_empty() {
    assert_eq!(read("").render(), "()");
    assert_eq!(read("  \t\r\n ; note\n;last").render(), "()");
}

#[test]
fn empty_list_and_three_symbols() {
    let v = read("()");
    assert_eq!(v.render(), "(())");
    let v = read("(a b c)");
    match v {
        Value::List(top) => match &top[0] {
            Value::List(xs) => {
                assert_eq!(xs.len(), 3);
                assert_eq!(xs[0].render(), "a");
                assert_eq!(xs[1].render(), "b");
                assert_eq!(xs[2].render(), "c");
            },
            _ => panic!(),
        },
        _ => panic!(),
    }
}

#[test]
fn unclosed_list_fails_at_end_of_input() {
    match sl(View::new("(a b")) {
        Err(Either::L(unclosed)) => {
            assert_eq!(unclosed.0.start, 4);
            assert_eq!(unclosed.at().as_str(), "");
            assert_eq!(unclosed.expected(), "missing ')', unclosed s expression");
        },
        _ => panic!(),
    }
}

#[test]
fn stray_close_paren_is_unexpected_token() {
    match sl(View::new(")")) {
        Err(Either::R(unexpected)) => {
            assert_eq!(unexpected.0.start, 0);
            assert_eq!(unexpected.expected(), "unexpected token");
        },
        _ => panic!(),
    }
    match sl(View::new("(a) )")) {
        Err(Either::R(unexpected)) => assert_eq!(unexpected.0.start, 4),
        _ => panic!(),
    }
}

#[test]
fn nested_unclosed_reports_inner_position() {
    match sl(View::new("(a (b c")) {
        Err(Either::L(unclosed)) => assert_eq!(unclosed.0.start, 7),
        _ => panic!(),
    }
}

#[test]
fn booleans_and_comments_between_elements() {
    let v = read("(#t ; yes\n #f\n\tx)");
    assert_eq!(v.render(), "((#t #f x))");
}

#[test]
fn boolean_prefix_wins_over_symbol() {
    assert_eq!(read("#tx").render(), "(#t x)");
    assert_eq!(read("#x").render(), "(#x)");
}

#[test]
fn trailing_comment_without_newline() {
    assert_eq!(read("a ; the end").render(), "(a)");
}

#[test]
fn print_then_read_gives_the_same() {
    let first = read("(a (b #t) () #f (c (d)))");
    let expr = match &first {
        Value::List(top) => top[0].render(),
        _ => panic!(),
    };
    assert_eq!(expr, "(a (b #t) () #f (c (d)))");
    let again = read(&expr);
    assert_eq!(again.render(), first.render());
}

#[test]
fn whitespace_rule_needs_one_character() {
    assert!(whitespace(View::new("x")).is_err());
    let (rest, ()) = whitespace(View::new(" \t\nx")).unwrap();
    assert_eq!(rest.as_str(), "x");
}

#[test]
fn symbol_rule_fails_on_illegal_start() {
    let err = symbol(View::new("(x")).unwrap_err();
    assert_eq!(err.0.start, 0);
    assert_eq!(err.expected(), "expected symbol");
}

#[test]
fn bool_rule() {
    let (rest, v) = bool(View::new("#f rest")).unwrap();
    assert_eq!((rest.as_str(), v.render().as_str()), (" rest", "#f"));
    assert!(bool(View::new("#q")).is_err());
}
