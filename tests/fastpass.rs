use slisp::fastpass::flatmap::flatmap;
use slisp::fastpass::repeat::{greedy, repeat_if};
use slisp::fastpass::{
    caret_window, expect, map_err, map_ok, optional, or, then, then_left, then_right, CaptureWhile, Either,
    Parser, View,
};

#[test]
fn sub_view1() {
    let v = View::new("12345");
    assert_eq!("12345", v.as_str());
    let v = v.sub_view(0..4);
    assert_eq!("1234", v.as_str());
    let v = v.sub_view(1..v.char_len());
    assert_eq!("234", v.as_str());
    let v = v.sub_view(1..2);
    assert_eq!("3", v.as_str());
}

#[test]
fn exact_match() {
    let parser = "abc";
    let buf = View::new("abc");
    let res = Parser::parse(&parser, buf);
    assert!(res.is_ok());
    let (buf, res) = res.unwrap();
    assert_eq!(("", "abc"), (buf.as_str(), res.as_str()))
}

#[test]
fn totally_different() {
    let parser = "abc";
    let buf = View::new("defgh");
    let res = Parser::parse(&parser, buf);
    assert!(res.is_err());
}

#[test]
fn starts_with() {
    let parser = "abc";
    let buf = View::new("abcd");
    let res = Parser::parse(&parser, buf);
    assert!(res.is_ok());
    let (buf, res) = res.unwrap();
    assert_eq!(("d", "abc"), (buf.as_str(), res.as_str()))
}

#[test]
fn ends_early() {
    let parser = "abc";
    let buf = View::new("ab");
    let res = Parser::parse(&parser, buf);
    assert!(res.is_err());
}

#[test]
fn partial() {
    let parser = "abc";
    let buf = View::new("abd");
    let res = Parser::parse(&parser, buf);
    assert!(res.is_err());
}

#[test]
fn capture_all_whitespace() {
    let parser = CaptureWhile(|_, char| char.is_whitespace());
    let buf = View::new("   ");
    let res = Parser::parse(&parser, buf);
    assert!(res.is_ok());
    let (buf, res) = res.unwrap();
    assert_eq!(("", "   "), (buf.as_str(), res.as_str()))
}

#[test]
fn capture_nothing() {
    let parser = CaptureWhile(|_, char| !char.is_whitespace());
    let buf = View::new("   ");
    let res = Parser::parse(&parser, buf);
    assert!(res.is_ok());
    let (buf, res) = res.unwrap();
    assert_eq!(("   ", ""), (buf.as_str(), res.as_str()))
}

#[test]
fn capture_a() {
    let parser = CaptureWhile(|_, char| char == 'a');
    let buf = View::new("abc");
    let res = Parser::parse(&parser, buf);
    assert!(res.is_ok());
    let (buf, res) = res.unwrap();
    assert_eq!(("bc", "a"), (buf.as_str(), res.as_str()))
}

#[test]
fn literal_mismatch_points_at_divergence() {
    let res = Parser::parse(&"abc", View::new("abxyz"));
    let (at, expected) = res.unwrap_err();
    assert_eq!(at.start, 2);
    assert_eq!(at.as_str(), "xyz");
    assert_eq!(expected, "abc");
}

#[test]
fn capture_sees_text_so_far() {
    let parser = CaptureWhile(|so_far: &str, _| so_far.len() < 2);
    let (rest, got) = Parser::parse(&parser, View::new("abcd")).unwrap();
    assert_eq!((rest.as_str(), got.as_str()), ("cd", "ab"));
}

#[test]
fn then_tags_the_failing_side() {
    let p = then("a", "b");
    let (rest, (x, y)) = p.parse(View::new("abc")).unwrap();
    assert_eq!((rest.as_str(), x.as_str(), y.as_str()), ("c", "a", "b"));
    assert!(matches!(then("a", "b").parse(View::new("xb")), Err(Either::L(_))));
    assert!(matches!(then("a", "b").parse(View::new("ax")), Err(Either::R(_))));
}

#[test]
fn or_retries_from_the_same_start() {
    let p = or("ab", "ac");
    let (rest, got) = p.parse(View::new("acd")).unwrap();
    assert_eq!(rest.as_str(), "d");
    assert!(matches!(got, Either::R(_)));
    let (e1, e2) = or("ab", "ac").parse(View::new("zz")).unwrap_err();
    assert_eq!((e1.1, e2.1), ("ab", "ac"));
}

#[test]
fn optional_leaves_input_on_absence() {
    let (rest, got) = optional("x").parse(View::new("yz")).unwrap();
    assert_eq!(rest.as_str(), "yz");
    assert!(got.is_none());
    let (rest, got) = optional("y").parse(View::new("yz")).unwrap();
    assert_eq!((rest.as_str(), got.unwrap().as_str()), ("z", "y"));
}

#[test]
fn greedy_keeps_the_terminal_failure() {
    let (rest, (items, err)) = greedy("ab").parse(View::new("ababa")).unwrap();
    assert_eq!(items.len(), 2);
    assert_eq!(rest.as_str(), "a");
    assert_eq!(err.0.as_str(), "");
}

#[test]
fn map_ok_and_map_err_transform() {
    let p = map_ok("ab", |v: View| -> Result<usize, (View, &str)> { Ok(v.char_len()) });
    assert_eq!(p.parse(View::new("abc")).unwrap().1, 2);
    let q = map_err("ab", |_e: (View, &str)| -> Result<View, &str> { Err("nope") });
    assert_eq!(q.parse(View::new("x")).unwrap_err(), "nope");
}

#[test]
fn expect_is_zero_width() {
    let at_end = expect(|v: View| if v.char_len() == 0 { None } else { Some("not at end") });
    let (rest, ()) = at_end.parse(View::new("")).unwrap();
    assert_eq!(rest.as_str(), "");
    assert_eq!(at_end.parse(View::new("x")).unwrap_err(), "not at end");
}

#[test]
fn fuse_forgets_the_side() {
    assert_eq!(Either::<u8, u8>::L(3).fuse(), 3);
    assert_eq!(Either::<u8, u8>::R(4).fuse(), 4);
}

#[test]
fn row_col_and_source_line() {
    let v = View::new("ab\ncdef\ng").sub_view(5..9);
    assert_eq!(v.row_col(), (1, 2));
    assert_eq!(v.source_line(), "cdef");
    let w = View::new("xyz").sub_view(0..3);
    assert_eq!(w.row_col(), (0, 0));
    assert_eq!(w.source_line(), "xyz");
}

#[test]
fn caret_window_narrows_at_line_start() {
    assert_eq!(caret_window(0), (0, 3));
    assert_eq!(caret_window(2), (0, 3));
    assert_eq!(caret_window(4), (1, 4));
    assert_eq!(caret_window(10), (7, 5));
}

#[test]
fn repeat_if_stops_when_test_declines() {
    let p = repeat_if("a", |seen: &Vec<View>| seen.len() < 2);
    let (rest, items) = p.parse(View::new("aaaa")).unwrap();
    assert_eq!((items.len(), rest.as_str()), (2, "aa"));
    assert!(repeat_if("a", |seen: &Vec<View>| seen.len() < 3).parse(View::new("aa")).is_err());
}

#[test]
fn flatmap_picks_the_next_parser() {
    let p = flatmap("a", |r: Result<View, (View, &str)>| if r.is_ok() { "b" } else { "c" });
    assert_eq!(p.parse(View::new("ab")).unwrap().0.as_str(), "");
    assert_eq!(p.parse(View::new("c")).unwrap().0.as_str(), "");
    assert!(p.parse(View::new("ac")).is_err());
}

#[test]
fn chaining_methods_build_the_combinators() {
    let (rest, kept) = "a".then_left("b").parse(View::new("abc")).unwrap();
    assert_eq!((rest.as_str(), kept.as_str()), ("c", "a"));
    let (rest, kept) = "a".then_right("b").parse(View::new("abc")).unwrap();
    assert_eq!((rest.as_str(), kept.as_str()), ("c", "b"));
    let (_, got) = "x".or("y").parse(View::new("y")).unwrap();
    assert!(matches!(got, Either::R(_)));
    let (rest, _) = "a".then("b").parse(View::new("ab")).unwrap();
    assert_eq!(rest.as_str(), "");
    let at_end = "a".expect(|v: View| if v.char_len() == 0 { None } else { Some("trailing") });
    assert!(at_end.parse(View::new("a")).is_ok());
    assert!(matches!(at_end.parse(View::new("ab")), Err(Either::R("trailing"))));
    let (_, n) = "ab".map_ok(|v: View| -> Result<usize, (View, &str)> { Ok(v.char_len()) }).parse(View::new("ab")).unwrap();
    assert_eq!(n, 2);
    let (_, items) = "a".greedy().parse(View::new("aab")).unwrap();
    assert_eq!(items.0.len(), 2);
}

#[test]
fn then_left_and_then_right_functions() {
    assert_eq!(then_left("a", "b").parse(View::new("ab")).unwrap().1.as_str(), "a");
    assert_eq!(then_right("a", "b").parse(View::new("ab")).unwrap().1.as_str(), "b");
    assert!(matches!(then_left("a", "b").parse(View::new("aa")), Err(Either::R(_))));
}
