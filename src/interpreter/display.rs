//! Printing values as text.

use vstd::prelude::*;
use vstd::string::StringExecFns;

use super::values::{
    builtin_usage, deep_seq, lemma_list_deep, names_of, names_text, print_items, print_spec,
    Binder, Builtin, Datum, Value,
};

verus! {

broadcast use vstd::std_specs::vec::axiom_vec_index_decreases;

/// How the built-in form `k` is used.
fn usage(k: Builtin) -> (r: &'static str)
    ensures
        r@ == builtin_usage(k),
{
    match k {
        Builtin::Lambda => "(bindings...) body",
        Builtin::Macro => "binding body",
        Builtin::Let => "((binding value)...) body",
        Builtin::Quote => "symbol",
        Builtin::Quasiquote => "symbol",
        Builtin::Eval => "symbol",
        Builtin::Begin => "((define-form)...) body",
        Builtin::If => "cond pass-body fail-body",
        Builtin::Guard => "(guard? body)... fail",
        Builtin::Pmatch => "(structure [guard?] body)... fail",
    }
}

/// Appends a parameter list: the names between parentheses, separated by
/// single spaces.
fn write_names(params: &Vec<String>, out: &mut String)
    ensures
        final(out)@ == old(out)@ + ("("@ + names_text(names_of(params@), 0) + ")"@),
{
    let ghost ps = names_of(params@);
    let ghost start = out@;
    out.append("(");
    let mut i: usize = 0;
    while i < params.len()
        invariant
            i <= params@.len(),
            ps == names_of(params@),
            out@ + names_text(ps, i as int) == start + "("@ + names_text(ps, 0),
        decreases params@.len() - i,
    {
        let ghost before = out@;
        out.append(params[i].as_str());
        if i + 1 < params.len() {
            out.append(" ");
            proof {
                assert(out@ + names_text(ps, i + 1) =~= before + names_text(ps, i as int));
            }
        } else {
            proof {
                assert(names_text(ps, i + 1) =~= Seq::<char>::empty());
                assert(out@ + names_text(ps, i + 1) =~= before + names_text(ps, i as int));
            }
        }
        i += 1;
    }
    proof {
        assert(names_text(ps, i as int) =~= Seq::<char>::empty());
        assert(out@ =~= out@ + names_text(ps, i as int));
    }
    out.append(")");
    proof {
        assert(out@ =~= start + ("("@ + names_text(ps, 0) + ")"@));
    }
}

fn write_value(v: &Value, out: &mut String)
    ensures
        final(out)@ == old(out)@ + print_spec(v.deep()),
    decreases *v,
{
    match v {
        Value::Symbol(s) => {
            out.append(s.as_str());
        },
        Value::Bool(b) => {
            if *b {
                out.append("#t");
            } else {
                out.append("#f");
            }
        },
        Value::Procedure(p) => {
            out.append("(procedure ");
            match &p.binder {
                Binder::Builtin(k) => {
                    out.append(usage(*k));
                },
                Binder::Lambda(params, _) => {
                    write_names(params, out);
                },
                Binder::Macro(b, _) => {
                    out.append(b.as_str());
                },
            }
            out.append(")");
        },
        Value::List(xs) => {
            let ghost xd = deep_seq(xs@);
            let ghost start = out@;
            proof {
                lemma_list_deep(*v);
            }
            out.append("(");
            let mut i: usize = 0;
            while i < xs.len()
                invariant
                    i <= xs@.len(),
                    xd == deep_seq(xs@),
                    *v == Value::List(*xs),
                    v.deep() == Datum::List(xd),
                    out@ + print_items(xd, i as int) == start + "("@ + print_items(xd, 0),
                decreases xs@.len() - i,
            {
                proof {
                    assert(decreases_to!(**xs => xs@[i as int]));
                    assert(decreases_to!(*v => xs@[i as int]));
                }
                let ghost before = out@;
                write_value(&xs[i], out);
                if i + 1 < xs.len() {
                    out.append(" ");
                    proof {
                        assert(out@ + print_items(xd, i + 1) =~= before + print_items(xd, i as int));
                    }
                } else {
                    proof {
                        assert(print_items(xd, i + 1) =~= Seq::<char>::empty());
                        assert(out@ + print_items(xd, i + 1) =~= before + print_items(xd, i as int));
                    }
                }
                i += 1;
            }
            proof {
                assert(print_items(xd, i as int) =~= Seq::<char>::empty());
                assert(out@ =~= out@ + print_items(xd, i as int));
            }
            out.append(")");
            proof {
                assert(out@ =~= start + ("("@ + print_items(xd, 0) + ")"@));
            }
        },
    }
}

impl Value {
    /// The value as text: see [`print_spec`].
    pub fn render(&self) -> (r: String)
        ensures
            r@ == print_spec(self.deep()),
    {
        let mut out = String::new();
        write_value(self, &mut out);
        proof {
            assert(out@ =~= Seq::<char>::empty() + print_spec(self.deep()));
        }
        out
    }
}

} // verus!
