//! A small Lisp: a parser-combinator engine over windows of source text
//! ([`fastpass`]), the grammar built on it ([`ast`]), and a macro-expanding,
//! lexically scoped evaluator ([`interpreter`]).

pub mod ast;
pub mod fastpass;
pub mod interpreter;
