//! Re-serialization of an expression tree as a line of input text.
//!
//! The rendering is chosen so that feeding the text back through the
//! tokenizer and the parser reproduces the tree: every token of the tree
//! reappears in order (implicit multiplications were already explicit
//! tokens), numbers are rendered in plain positional decimal with enough
//! digits to identify the value uniquely, and single blanks keep adjacent
//! tokens apart without triggering an implicit multiplication.
use vstd::prelude::*;

use crate::functions::ElementaryFunc;
use crate::functions::HigherOrderFunc;
use crate::parser::expr_model;
use crate::parser::ExprModel;
use crate::parser::Expression;
use crate::parser::Function;
use crate::parser::MathExpression;
use crate::render::canon_of;
use crate::render::plain_style;
use crate::render::render_plain;

verus! {

broadcast use vstd::std_specs::vec::axiom_vec_index_decreases, vstd::std_specs::vec::axiom_vec_decreases_to_view, vstd::seq::axiom_seq_index_decreases;

/// The character of an elementary operator.
pub open spec fn op_text(op: ElementaryFunc) -> Seq<char> {
    match op {
        ElementaryFunc::Addition => "+"@,
        ElementaryFunc::Division => "/"@,
        ElementaryFunc::Modulo => "%"@,
        ElementaryFunc::Multiplication => "*"@,
        ElementaryFunc::Subtraction => "-"@,
        ElementaryFunc::LessThan => "<"@,
        ElementaryFunc::GreaterThan => ">"@,
    }
}

/// The keyword of a higher-order function.
pub open spec fn hof_text(hf: HigherOrderFunc) -> Seq<char> {
    match hf {
        HigherOrderFunc::Factorial(_) => "Fac"@,
        HigherOrderFunc::EucleadianModulo(_) => "EMod"@,
        HigherOrderFunc::Minimum(_) => "Min"@,
        HigherOrderFunc::Maximum(_) => "Max"@,
        HigherOrderFunc::Absolute(_) => "Abs"@,
    }
}

/// The text of a tree: brackets around bracket nodes, infix operators
/// between their operands, keyword calls with comma-separated parameters,
/// numbers in plain decimal, variables by name.
pub open spec fn sp_serialize(m: ExprModel) -> Seq<char>
    decreases m, 0int,
{
    match m {
        ExprModel::Bracketed(inner) => "("@ + sp_serialize(*inner) + ")"@,
        ExprModel::Number(b) => plain_style(canon_of(b)),
        ExprModel::Variable(n, _) => n,
        ExprModel::Elementary(l, op, r) => sp_serialize(*l) + " "@ + op_text(op) + " "@ + sp_serialize(*r),
        ExprModel::Higher(hf, ps) => hof_text(hf) + "("@ + sp_serialize_list(ps, 0) + ")"@,
    }
}

/// The comma-separated text of a parameter list from position `i` on.
pub open spec fn sp_serialize_list(ps: Seq<ExprModel>, i: int) -> Seq<char>
    decreases ps, ps.len() - i,
{
    if i < 0 || i >= ps.len() {
        Seq::empty()
    } else if i + 1 == ps.len() {
        sp_serialize(ps[i])
    } else {
        sp_serialize(ps[i]) + ","@ + sp_serialize_list(ps, i + 1)
    }
}

fn op_str(op: &ElementaryFunc) -> (r: &'static str)
    ensures
        r@ == op_text(*op),
{
    match op {
        ElementaryFunc::Addition => "+",
        ElementaryFunc::Division => "/",
        ElementaryFunc::Modulo => "%",
        ElementaryFunc::Multiplication => "*",
        ElementaryFunc::Subtraction => "-",
        ElementaryFunc::LessThan => "<",
        ElementaryFunc::GreaterThan => ">",
    }
}

fn hof_str(hf: &HigherOrderFunc) -> (r: &'static str)
    ensures
        r@ == hof_text(*hf),
{
    match hf {
        HigherOrderFunc::Factorial(_) => "Fac",
        HigherOrderFunc::EucleadianModulo(_) => "EMod",
        HigherOrderFunc::Minimum(_) => "Min",
        HigherOrderFunc::Maximum(_) => "Max",
        HigherOrderFunc::Absolute(_) => "Abs",
    }
}

/// Renders a tree as one line of input text.
#[verifier::loop_isolation(false)]
pub fn serialize(e: &Expression) -> (r: String)
    ensures
        r@ == sp_serialize(expr_model(*e)),
    decreases *e, 2int,
{
    match e {
        Expression::BracketedExpression(b) => {
            let inner = serialize(&b.expression);
            let r = String::from_str("(").concat(inner.as_str()).concat(")");
            proof {
                assert(r@ =~= sp_serialize(expr_model(*e)));
            }
            r
        },
        Expression::MathExpression(m) => match &**m {
            MathExpression::Number(b) => render_plain(*b),
            MathExpression::Variable(v) => String::from_str(v.name.as_str()),
            MathExpression::Function(f) => match f {
                Function::ElementaryFunction(ef) => {
                    proof {
                        assert(expr_model(*e) == crate::parser::math_model(**m));
                        assert(crate::parser::math_model(**m) == crate::parser::func_model(*f));
                        assert(crate::parser::func_model(*f) == ExprModel::Elementary(
                            Box::new(expr_model(ef.expression_lhs)),
                            ef.function,
                            Box::new(expr_model(ef.expression_rhs)),
                        ));
                    }
                    let l = serialize(&ef.expression_lhs);
                    let rr = serialize(&ef.expression_rhs);
                    let r = l.concat(" ").concat(op_str(&ef.function)).concat(" ").concat(rr.as_str());
                    proof {
                        assert(r@ =~= sp_serialize(expr_model(*e)));
                    }
                    r
                },
                Function::HigherOrderFunction(h) => {
                    let ghost ps = crate::parser::params_model(h.params);
                    proof {
                        assert(expr_model(*e) == crate::parser::math_model(**m));
                        assert(crate::parser::math_model(**m) == crate::parser::func_model(*f));
                        assert(crate::parser::func_model(*f) == ExprModel::Higher(h.function, ps));
                    }
                    let first = serialize(&h.params.expression);
                    let mut acc = String::from_str(hof_str(&h.function)).concat("(").concat(first.as_str());
                    let ghost lead = hof_text(h.function) + "("@;
                    proof {
                        assert(ps[0] == expr_model(h.params.expression));
                        if h.params.expression_comma is Some {
                            crate::executor::lemma_comma_props(h.params.expression_comma->Some_0, 0);
                            assert(ps.len() == 1 + h.params.expression_comma->Some_0@.len());
                        } else {
                            assert(ps.len() == 1);
                        }
                        if ps.len() == 1 {
                            assert(acc@ =~= lead + sp_serialize_list(ps, 0));
                        } else {
                            assert(acc@ + (","@ + sp_serialize_list(ps, 1)) =~= lead + sp_serialize_list(ps, 0));
                        }
                    }
                    match &h.params.expression_comma {
                        None => {},
                        Some(v) => {
                            let mut k: usize = 0;
                            while k < v.len()
                                invariant
                                    k <= v@.len(),
                                    ps.len() == 1 + v@.len(),
                                    (if 1 + k == ps.len() {
                                        acc@ =~= lead + sp_serialize_list(ps, 0)
                                    } else {
                                        acc@ + (","@ + sp_serialize_list(ps, 1 + k as int)) =~= lead
                                            + sp_serialize_list(ps, 0)
                                    }),
                                decreases v@.len() - k,
                            {
                                proof {
                                    assert(ps[1 + k as int] == expr_model(v@[k as int].1));
                                }
                                let piece = serialize(&v[k].1);
                                acc = acc.concat(",").concat(piece.as_str());
                                proof {
                                    if 1 + (k + 1) == ps.len() {
                                        assert(sp_serialize_list(ps, 1 + k as int) =~= sp_serialize(ps[1
                                            + k as int]));
                                        assert(acc@ =~= lead + sp_serialize_list(ps, 0));
                                    } else {
                                        assert(sp_serialize_list(ps, 1 + k as int) =~= sp_serialize(ps[1
                                            + k as int]) + ","@ + sp_serialize_list(ps, 2 + k as int));
                                        assert(acc@ + (","@ + sp_serialize_list(ps, 2 + k as int)) =~= lead
                                            + sp_serialize_list(ps, 0));
                                    }
                                }
                                k = k + 1;
                            }
                        },
                    }
                    let r = acc.concat(")");
                    proof {
                        assert(r@ =~= sp_serialize(expr_model(*e)));
                    }
                    r
                },
            },
        },
    }
}

} // verus!
