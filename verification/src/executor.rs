//! The executor: walks the expression tree, evaluates literals and
//! variables, and dispatches to the function library, propagating the first
//! functional error.
use vstd::prelude::*;

use crate::double::abs_bits;
use crate::double::add_of;
use crate::double::div_of;
use crate::double::double_lt;
use crate::double::double_of_u32;
use crate::double::fmod_of;
use crate::double::is_inf_bits;
use crate::double::is_integral_bits;
use crate::double::is_nan_bits;
use crate::double::max_bits;
use crate::double::min_bits;
use crate::double::mul_of;
use crate::double::sign_bit;
use crate::double::sub_of;
use crate::double::to_u32_bits;
use crate::error::CLMathError;
use crate::error::FunctionError;
use crate::error::FunctionErrorType;
use crate::functions::absolute;
use crate::functions::addition;
use crate::functions::div_zero_text;
use crate::functions::division;
use crate::functions::fact;
use crate::functions::factorial;
use crate::functions::factorial_text;
use crate::functions::greater_than;
use crate::functions::less_than;
use crate::functions::maximum;
use crate::functions::minimum;
use crate::functions::modulo;
use crate::functions::modulo_euclid;
use crate::functions::multiplication;
use crate::functions::overflow_text;
use crate::functions::subtraction;
use crate::functions::ElementaryFunc;
use crate::functions::Func;
use crate::functions::FunctionReturnType;
use crate::functions::HigherOrderFunc;
use crate::parser::expr_model;
use crate::parser::params_model;
use crate::parser::start_model;
use crate::parser::ElementaryFunction;
use crate::parser::ExprModel;
use crate::parser::Expression;
use crate::parser::Function;
use crate::parser::HigherOrderFunction;
use crate::parser::MathExpression;
use crate::parser::Start;
use crate::parser::StartModel;
use crate::render::canon_of;
use crate::render::plain_style;

verus! {

broadcast use vstd::std_specs::vec::axiom_vec_index_decreases, vstd::std_specs::vec::axiom_vec_decreases_to_view, vstd::seq::axiom_seq_index_decreases;

/// The mathematical image of a computed value.
#[verifier::ext_equal]
pub ghost enum ValueModel {
    F64(u64),
    Bool(bool),
    U32(u32),
    Str(Seq<char>),
}

/// The image of an executable value.
pub open spec fn value_model(v: FunctionReturnType) -> ValueModel {
    match v {
        FunctionReturnType::F64(b) => ValueModel::F64(b),
        FunctionReturnType::Bool(b) => ValueModel::Bool(b),
        FunctionReturnType::U32(n) => ValueModel::U32(n),
        FunctionReturnType::Str(s) => ValueModel::Str(s@),
    }
}

/// The mathematical image of a functional error.
#[verifier::ext_equal]
pub ghost struct FErr {
    pub msg: Seq<char>,
    pub kind: FunctionErrorType,
}

/// The image of an executable functional error.
pub open spec fn ferr_model(e: FunctionError) -> FErr {
    FErr { msg: e.error@, kind: e.error_type }
}

/// The message reported when a parameter of the wrong kind reaches a
/// function expecting a 64-bit value.
pub open spec fn expected_f64_msg(v: ValueModel) -> Seq<char> {
    match v {
        ValueModel::F64(_) => Seq::empty(),
        ValueModel::U32(n) => "Expected a f64 as a parameter but got a u32 "@ + crate::decimal::dec_rep(n as nat),
        ValueModel::Bool(b) => "Expected a f64 as a parameter but got a boolean "@ + (if b {
            "true"@
        } else {
            "false"@
        }),
        ValueModel::Str(s) => "Expected a f64 as a parameter but got a string \""@ + s + "\""@,
    }
}

/// The message reported when a parameter of the wrong kind reaches the
/// factorial, which expects a 32-bit integer.
pub open spec fn expected_u32_msg(v: ValueModel) -> Seq<char> {
    match v {
        ValueModel::F64(b) => "Expected a u32 as a parameter but got a f64 "@ + plain_style(canon_of(b)),
        ValueModel::U32(_) => Seq::empty(),
        ValueModel::Bool(b) => "Expected a u32 as a parameter but got a boolean "@ + (if b {
            "true"@
        } else {
            "false"@
        }),
        ValueModel::Str(s) => "Expected a u32 as a parameter but got a string \""@ + s + "\""@,
    }
}

/// The 64-bit value a computed value stands for, or a parameter-type error.
pub open spec fn sp_get_f64(v: ValueModel) -> Result<u64, FErr> {
    match v {
        ValueModel::F64(b) => Ok(b),
        _ => Err(FErr { msg: expected_f64_msg(v), kind: FunctionErrorType::InvalidParameterType }),
    }
}

/// The 32-bit integer a computed value stands for, or a parameter-type
/// error.
pub open spec fn sp_get_u32(v: ValueModel) -> Result<u32, FErr> {
    match v {
        ValueModel::F64(b) => if is_integral_bits(b) {
            Ok(to_u32_bits(b))
        } else {
            Err(FErr { msg: expected_u32_msg(v), kind: FunctionErrorType::InvalidParameterType })
        },
        ValueModel::U32(n) => Ok(n),
        _ => Err(FErr { msg: expected_u32_msg(v), kind: FunctionErrorType::InvalidParameterType }),
    }
}

/// Classification of a rounded result: an infinity is an overflow or an
/// underflow by its sign, anything else is returned as computed.
pub open spec fn sp_classify(v: u64, a: u64, b: u64, op: Seq<char>) -> Result<ValueModel, FErr> {
    if is_inf_bits(v) && sign_bit(v) {
        Err(FErr { msg: overflow_text(a, b, op, false), kind: FunctionErrorType::UnderflowInf })
    } else if is_inf_bits(v) {
        Err(FErr { msg: overflow_text(a, b, op, true), kind: FunctionErrorType::OverflowInf })
    } else {
        Ok(ValueModel::F64(v))
    }
}

/// The Euclidean remainder: the plain remainder, shifted up by the
/// magnitude of the divisor when it comes out negative.
pub open spec fn sp_rem_euclid(a: u64, n: u64) -> u64 {
    let rr = fmod_of(a, n);
    if double_lt(rr, 0) {
        add_of(rr, abs_bits(n))
    } else {
        rr
    }
}

/// What one elementary operator computes on two 64-bit values.
pub open spec fn sp_elem_op(op: ElementaryFunc, a: u64, b: u64) -> Result<ValueModel, FErr> {
    match op {
        ElementaryFunc::Addition => sp_classify(add_of(a, b), a, b, "addition"@),
        ElementaryFunc::Division => {
            let v = div_of(a, b);
            if is_nan_bits(v) {
                Err(FErr { msg: div_zero_text(a, b), kind: FunctionErrorType::DivisionByZero })
            } else {
                sp_classify(v, a, b, "division"@)
            }
        },
        ElementaryFunc::Modulo => Ok(ValueModel::F64(fmod_of(a, b))),
        ElementaryFunc::Multiplication => sp_classify(mul_of(a, b), a, b, "multiplication"@),
        ElementaryFunc::Subtraction => sp_classify(sub_of(a, b), a, b, "subtraction"@),
        ElementaryFunc::LessThan => Ok(ValueModel::Bool(double_lt(a, b))),
        ElementaryFunc::GreaterThan => Ok(ValueModel::Bool(double_lt(b, a))),
    }
}

/// The values of a parameter list, left to right, stopping at the first
/// error.
pub open spec fn sp_eval_list(ps: Seq<ExprModel>, i: int) -> Result<Seq<ValueModel>, FErr>
    decreases ps, ps.len() - i,
{
    if i < 0 || i >= ps.len() {
        Ok(Seq::<ValueModel>::empty())
    } else {
        match sp_eval(ps[i]) {
            Err(e) => Err(e),
            Ok(v) => match sp_eval_list(ps, i + 1) {
                Err(e) => Err(e),
                Ok(rest) => Ok(seq![v] + rest),
            },
        }
    }
}

/// What a higher-order function computes from its evaluated parameters.
/// The two-operand functions take the first and the last parameter.
pub open spec fn sp_higher_op(hf: HigherOrderFunc, vals: Seq<ValueModel>) -> Result<ValueModel, FErr> {
    match hf {
        HigherOrderFunc::Factorial(_) => match sp_get_u32(vals[0]) {
            Err(e) => Err(e),
            Ok(n) => if fact(n as nat) <= 0xFFFF_FFFF {
                Ok(ValueModel::U32(fact(n as nat) as u32))
            } else {
                Err(FErr { msg: factorial_text(double_of_u32(n)), kind: FunctionErrorType::FactorialError })
            },
        },
        HigherOrderFunc::EucleadianModulo(_) => match sp_get_f64(vals[0]) {
            Err(e) => Err(e),
            Ok(a) => match sp_get_f64(vals.last()) {
                Err(e) => Err(e),
                Ok(b) => Ok(ValueModel::F64(sp_rem_euclid(a, b))),
            },
        },
        HigherOrderFunc::Minimum(_) => match sp_get_f64(vals[0]) {
            Err(e) => Err(e),
            Ok(a) => match sp_get_f64(vals.last()) {
                Err(e) => Err(e),
                Ok(b) => Ok(ValueModel::F64(min_bits(a, b))),
            },
        },
        HigherOrderFunc::Maximum(_) => match sp_get_f64(vals[0]) {
            Err(e) => Err(e),
            Ok(a) => match sp_get_f64(vals.last()) {
                Err(e) => Err(e),
                Ok(b) => Ok(ValueModel::F64(max_bits(a, b))),
            },
        },
        HigherOrderFunc::Absolute(_) => match sp_get_f64(vals[0]) {
            Err(e) => Err(e),
            Ok(a) => Ok(ValueModel::F64(abs_bits(a))),
        },
    }
}

/// The value of an expression tree: literals and bound variables evaluate
/// to 64-bit values, an unbound variable passes its name through, and
/// function nodes evaluate their operands left to right and dispatch.
pub open spec fn sp_eval(e: ExprModel) -> Result<ValueModel, FErr>
    decreases e, 0int,
{
    match e {
        ExprModel::Bracketed(inner) => sp_eval(*inner),
        ExprModel::Number(b) => Ok(ValueModel::F64(b)),
        ExprModel::Variable(name, value) => Ok(
            match value {
                Some(b) => ValueModel::F64(b),
                None => ValueModel::Str(name),
            },
        ),
        ExprModel::Elementary(lhs, op, rhs) => match sp_eval(*lhs) {
            Err(e) => Err(e),
            Ok(lv) => match sp_get_f64(lv) {
                Err(e) => Err(e),
                Ok(a) => match sp_eval(*rhs) {
                    Err(e) => Err(e),
                    Ok(rv) => match sp_get_f64(rv) {
                        Err(e) => Err(e),
                        Ok(b) => sp_elem_op(op, a, b),
                    },
                },
            },
        },
        ExprModel::Higher(hf, ps) => match sp_eval_list(ps, 0) {
            Err(e) => Err(e),
            Ok(vals) => sp_higher_op(hf, vals),
        },
    }
}

/// A tree the executor accepts: every higher-order node carries at least
/// one parameter, and at least two for the two-operand functions.
pub open spec fn wf_model(e: ExprModel) -> bool
    decreases e, 0int,
{
    match e {
        ExprModel::Bracketed(inner) => wf_model(*inner),
        ExprModel::Number(_) => true,
        ExprModel::Variable(_, _) => true,
        ExprModel::Elementary(lhs, _, rhs) => wf_model(*lhs) && wf_model(*rhs),
        ExprModel::Higher(hf, ps) => ps.len() >= 1 && (match hf {
            HigherOrderFunc::EucleadianModulo(_) => ps.len() >= 2,
            HigherOrderFunc::Minimum(_) => ps.len() >= 2,
            HigherOrderFunc::Maximum(_) => ps.len() >= 2,
            _ => true,
        }) && wf_list(ps, 0)
    }
}

/// Well-formedness of every member of a parameter list.
pub open spec fn wf_list(ps: Seq<ExprModel>, i: int) -> bool
    decreases ps, ps.len() - i,
{
    if i < 0 || i >= ps.len() {
        true
    } else {
        wf_model(ps[i]) && wf_list(ps, i + 1)
    }
}

/// Well-formedness of a parsed line.
pub open spec fn start_wf(s: StartModel) -> bool {
    match s {
        StartModel::Expression(e) => wf_model(e),
        StartModel::Empty => true,
    }
}

/// Evaluates a parsed line: nothing for the empty line, and otherwise the
/// value of its expression, or the first functional error.
pub fn execute(expression: Start) -> (r: Result<Option<FunctionReturnType>, CLMathError>)
    requires
        start_wf(start_model(expression)),
    ensures
        ({
            match start_model(expression) {
                StartModel::Empty => r == Ok::<Option<FunctionReturnType>, CLMathError>(None),
                StartModel::Expression(m) => match sp_eval(m) {
                    Ok(v) => (r matches Ok(o) && o matches Some(rv) && value_model(rv) == v),
                    Err(fe) => (r matches Err(ce) && ce matches CLMathError::Function(f) && ferr_model(f) == fe),
                },
            }
        }),
{
    match expression {
        Start::Expression(expr) => match execute_expression(expr) {
            Ok(v) => Ok(Some(v)),
            Err(f) => Err(CLMathError::Function(f)),
        },
        Start::Empty => Ok(None),
    }
}

fn execute_expression(expression: Expression) -> (r: Result<FunctionReturnType, FunctionError>)
    requires
        wf_model(expr_model(expression)),
    ensures
        ({
            match sp_eval(expr_model(expression)) {
                Ok(v) => (r matches Ok(rv) && value_model(rv) == v),
                Err(fe) => (r matches Err(f) && ferr_model(f) == fe),
            }
        }),
    decreases expression, 2int,
{
    match expression {
        Expression::MathExpression(expr) => execute_math_expression(*expr),
        Expression::BracketedExpression(expr) => {
            let b = *expr;
            execute_expression(b.expression)
        },
    }
}

fn execute_math_expression(expression: MathExpression) -> (r: Result<FunctionReturnType, FunctionError>)
    requires
        wf_model(crate::parser::math_model(expression)),
    ensures
        ({
            match sp_eval(crate::parser::math_model(expression)) {
                Ok(v) => (r matches Ok(rv) && value_model(rv) == v),
                Err(fe) => (r matches Err(f) && ferr_model(f) == fe),
            }
        }),
    decreases expression, 1int,
{
    match expression {
        MathExpression::Function(function) => execute_function(function),
        MathExpression::Number(num) => Ok(FunctionReturnType::F64(num)),
        MathExpression::Variable(var) => match var.value {
            Some(num) => Ok(FunctionReturnType::F64(num)),
            None => Ok(FunctionReturnType::Str(var.name)),
        },
    }
}

fn execute_function(function: Function) -> (r: Result<FunctionReturnType, FunctionError>)
    requires
        wf_model(crate::parser::func_model(function)),
    ensures
        ({
            match sp_eval(crate::parser::func_model(function)) {
                Ok(v) => (r matches Ok(rv) && value_model(rv) == v),
                Err(fe) => (r matches Err(f) && ferr_model(f) == fe),
            }
        }),
    decreases function, 3int,
{
    match function {
        Function::ElementaryFunction(func) => run_elementary_function(func),
        Function::HigherOrderFunction(func) => run_higher_order_function(func),
    }
}

fn run_elementary_function(function: ElementaryFunction) -> (r: Result<FunctionReturnType, FunctionError>)
    requires
        wf_model(crate::parser::func_model(Function::ElementaryFunction(function))),
    ensures
        ({
            match sp_eval(crate::parser::func_model(Function::ElementaryFunction(function))) {
                Ok(v) => (r matches Ok(rv) && value_model(rv) == v),
                Err(fe) => (r matches Err(f) && ferr_model(f) == fe),
            }
        }),
    decreases function, 2int,
{
    let ghost me = crate::parser::func_model(Function::ElementaryFunction(function));
    let lv = match execute_expression(function.expression_lhs) {
        Ok(v) => v,
        Err(f) => {
            return Err(f);
        },
    };
    let lhs = match lv.get_f64() {
        Ok(a) => a,
        Err(f) => {
            return Err(f);
        },
    };
    let rv = match execute_expression(function.expression_rhs) {
        Ok(v) => v,
        Err(f) => {
            return Err(f);
        },
    };
    let rhs = match rv.get_f64() {
        Ok(b) => b,
        Err(f) => {
            return Err(f);
        },
    };

    match function.function {
        ElementaryFunc::Addition => addition(lhs, rhs),
        ElementaryFunc::Division => division(lhs, rhs),
        ElementaryFunc::Modulo => Ok(modulo(lhs, rhs)),
        ElementaryFunc::Multiplication => multiplication(lhs, rhs),
        ElementaryFunc::Subtraction => subtraction(lhs, rhs),
        ElementaryFunc::LessThan => Ok(less_than(lhs, rhs)),
        ElementaryFunc::GreaterThan => Ok(greater_than(lhs, rhs)),
    }
}

#[verifier::loop_isolation(false)]
#[verifier::rlimit(100)]
fn run_higher_order_function(function: HigherOrderFunction) -> (r: Result<FunctionReturnType, FunctionError>)
    requires
        wf_model(crate::parser::func_model(Function::HigherOrderFunction(function))),
    ensures
        ({
            match sp_eval(crate::parser::func_model(Function::HigherOrderFunction(function))) {
                Ok(v) => (r matches Ok(rv) && value_model(rv) == v),
                Err(fe) => (r matches Err(f) && ferr_model(f) == fe),
            }
        }),
    decreases function, 2int,
{
    let ghost me = crate::parser::func_model(Function::HigherOrderFunction(function));
    let ghost ps = params_model(function.params);
    proof {
        assert(me == ExprModel::Higher(function.function, ps));
        assert(ps[0] == expr_model(function.params.expression));
        assert(wf_list(ps, 0));
        lemma_wf_list_index(ps, 0, 0);
    }
    let func = function.function;
    let params = function.params;

    let first_param = match execute_expression(params.expression) {
        Ok(v) => v,
        Err(f) => {
            proof {
                assert(sp_eval_list(ps, 0) == Err::<Seq<ValueModel>, FErr>(ferr_model(f)));
                assert(sp_eval(me) == Err::<ValueModel, FErr>(ferr_model(f)));
            }
            return Err(f);
        },
    };

    let mut rest: Vec<(crate::parser::Comma, Expression)> = match params.expression_comma {
        Some(v) => v,
        None => Vec::new(),
    };
    let ghost rest0 = rest@;
    proof {
        if params.expression_comma is Some {
            lemma_comma_props(params.expression_comma->Some_0, 0);
        }
        assert(ps.len() == 1 + rest0.len());
        assert(forall|j: int|
            0 <= j < rest0.len() ==> ps[1 + j] == expr_model(#[trigger] rest0[j].1));
    }
    let mut other_params: Vec<FunctionReturnType> = Vec::new();

    while rest.len() > 0
        invariant
            rest@ == rest0.skip(rest0.len() - rest@.len()),
            rest@.len() <= rest0.len(),
            other_params@.len() + rest@.len() == rest0.len(),
            ps.len() == 1 + rest0.len(),
            forall|j: int| 0 <= j < rest0.len() ==> ps[1 + j] == expr_model(#[trigger] rest0[j].1),
            wf_list(ps, 0),
            sp_eval(ps[0]) == Ok::<ValueModel, FErr>(value_model(first_param)),
            sp_eval_list(ps, 1) == (match sp_eval_list(ps, 1 + other_params@.len() as int) {
                Ok(rest2) => Ok::<Seq<ValueModel>, FErr>(vmods(other_params@) + rest2),
                Err(e2) => Err::<Seq<ValueModel>, FErr>(e2),
            }),
        decreases rest@.len(),
    {
        let ghost k = other_params@.len() as int;
        let ghost prefix = vmods(other_params@);
        let pair = rest.remove(0);
        let e = pair.1;
        proof {
            assert(rest0.skip(k)[0] == rest0[k]);
            assert(e == rest0[k].1);
            assert(rest@ =~= rest0.skip(k + 1));
            assert(ps[1 + k] == expr_model(e));
            lemma_wf_list_index(ps, 0, 1 + k);
            assert(rest0 == function.params.expression_comma->Some_0@);
            assert(e == function.params.expression_comma->Some_0@[k].1);
        }
        let v = match execute_expression(e) {
            Ok(v) => v,
            Err(f) => {
                proof {
                    assert(sp_eval_list(ps, 1 + k) == Err::<Seq<ValueModel>, FErr>(ferr_model(f)));
                    assert(sp_eval_list(ps, 1) == Err::<Seq<ValueModel>, FErr>(ferr_model(f)));
                    assert(sp_eval_list(ps, 0) == Err::<Seq<ValueModel>, FErr>(ferr_model(f)));
                    assert(sp_eval(me) == Err::<ValueModel, FErr>(ferr_model(f)));
                }
                return Err(f);
            },
        };
        other_params.push(v);
        proof {
            assert(sp_eval_list(ps, 1 + k) == (match sp_eval_list(ps, 1 + k + 1) {
                Ok(rest2) => Ok::<Seq<ValueModel>, FErr>(seq![value_model(v)] + rest2),
                Err(e2) => Err::<Seq<ValueModel>, FErr>(e2),
            }));
            assert(other_params@.drop_last() =~= other_params@.subrange(0, other_params@.len() - 1));
            assert(vmods(other_params@) =~= prefix.push(value_model(v)));
            let rr = sp_eval_list(ps, 1 + k + 1);
            if rr is Ok {
                assert(prefix + (seq![value_model(v)] + rr->Ok_0) =~= vmods(other_params@) + rr->Ok_0);
            }
        }
    }

    let ghost vals = seq![value_model(first_param)] + vmods(other_params@);
    proof {
        assert(other_params@.len() == rest0.len());
        assert(1 + other_params@.len() == ps.len());
        assert(sp_eval_list(ps, ps.len() as int) == Ok::<Seq<ValueModel>, FErr>(Seq::<ValueModel>::empty()));
        assert(vmods(other_params@) + Seq::<ValueModel>::empty() =~= vmods(other_params@));
        assert(sp_eval_list(ps, 1) == Ok::<Seq<ValueModel>, FErr>(vmods(other_params@)));
        assert(sp_eval_list(ps, 0) == Ok::<Seq<ValueModel>, FErr>(vals));
        assert(sp_eval(me) == sp_higher_op(func, vals));
        assert(vals[0] == value_model(first_param));
        assert(vals.len() == ps.len());
    }

    match func {
        HigherOrderFunc::Factorial(_) => {
            let n = match first_param.get_u32() {
                Ok(n) => n,
                Err(f) => {
                    proof {
                        lemma_value_texts(f, vals[0]);
                        assert(sp_get_u32(vals[0]) == Err::<u32, FErr>(ferr_model(f)));
                    }
                    return Err(f);
                },
            };
            proof {
                assert(sp_get_u32(vals[0]) == Ok::<u32, FErr>(n));
            }
            factorial(n)
        },
        HigherOrderFunc::EucleadianModulo(_) => {
            let a = match first_param.get_f64() {
                Ok(a) => a,
                Err(f) => {
                    proof {
                        lemma_value_texts(f, vals[0]);
                    }
                    return Err(f);
                },
            };
            let second = match other_params.pop() {
                Some(v) => v,
                None => {
                    proof {
                        assert(false);
                    }
                    return Err(FunctionError::new(String::new(), FunctionErrorType::InvalidParameterType));
                },
            };
            proof {
                assert(vals.last() == value_model(second));
            }
            let b = match second.get_f64() {
                Ok(b) => b,
                Err(f) => {
                    proof {
                        lemma_value_texts(f, vals.last());
                    }
                    return Err(f);
                },
            };
            Ok(modulo_euclid(a, b))
        },
        HigherOrderFunc::Minimum(_) => {
            let a = match first_param.get_f64() {
                Ok(a) => a,
                Err(f) => {
                    proof {
                        lemma_value_texts(f, vals[0]);
                    }
                    return Err(f);
                },
            };
            let second = match other_params.pop() {
                Some(v) => v,
                None => {
                    proof {
                        assert(false);
                    }
                    return Err(FunctionError::new(String::new(), FunctionErrorType::InvalidParameterType));
                },
            };
            proof {
                assert(vals.last() == value_model(second));
            }
            let b = match second.get_f64() {
                Ok(b) => b,
                Err(f) => {
                    proof {
                        lemma_value_texts(f, vals.last());
                    }
                    return Err(f);
                },
            };
            Ok(minimum(a, b))
        },
        HigherOrderFunc::Maximum(_) => {
            let a = match first_param.get_f64() {
                Ok(a) => a,
                Err(f) => {
                    proof {
                        lemma_value_texts(f, vals[0]);
                    }
                    return Err(f);
                },
            };
            let second = match other_params.pop() {
                Some(v) => v,
                None => {
                    proof {
                        assert(false);
                    }
                    return Err(FunctionError::new(String::new(), FunctionErrorType::InvalidParameterType));
                },
            };
            proof {
                assert(vals.last() == value_model(second));
            }
            let b = match second.get_f64() {
                Ok(b) => b,
                Err(f) => {
                    proof {
                        lemma_value_texts(f, vals.last());
                    }
                    return Err(f);
                },
            };
            Ok(maximum(a, b))
        },
        HigherOrderFunc::Absolute(_) => {
            let a = match first_param.get_f64() {
                Ok(a) => a,
                Err(f) => {
                    proof {
                        lemma_value_texts(f, vals[0]);
                    }
                    return Err(f);
                },
            };
            Ok(absolute(a))
        },
    }
}

/// The images of a sequence of computed values.
pub open spec fn vmods(v: Seq<FunctionReturnType>) -> Seq<ValueModel> {
    v.map_values(|x: FunctionReturnType| value_model(x))
}

proof fn lemma_wf_list_index(ps: Seq<ExprModel>, i: int, j: int)
    requires
        wf_list(ps, i),
        0 <= i <= j < ps.len(),
    ensures
        wf_model(ps[j]),
    decreases j - i,
{
    if i < j {
        lemma_wf_list_index(ps, i + 1, j);
    }
}

pub proof fn lemma_comma_props(v: Vec<(crate::parser::Comma, Expression)>, i: int)
    requires
        0 <= i <= v@.len(),
    ensures
        crate::parser::comma_models(v, i).len() == v@.len() - i,
        forall|j: int|
            i <= j < v@.len() ==> crate::parser::comma_models(v, i)[j - i] == expr_model(
                #[trigger] v@[j].1,
            ),
    decreases v@.len() - i,
{
    if i < v@.len() {
        lemma_comma_props(v, i + 1);
    }
}

/// The executable and the model message for a parameter of the wrong kind
/// agree.
proof fn lemma_value_texts(f: FunctionError, v: ValueModel)
    ensures
        forall|x: FunctionReturnType|
            value_model(x) == v ==> crate::functions::expected_f64_text(x) == expected_f64_msg(v)
                && crate::functions::expected_u32_text(x) == expected_u32_msg(v),
{
    assert forall|x: FunctionReturnType| value_model(x) == v implies crate::functions::expected_f64_text(x)
        == expected_f64_msg(v) && crate::functions::expected_u32_text(x) == expected_u32_msg(v) by {
        match x {
            FunctionReturnType::F64(_) => {},
            FunctionReturnType::U32(_) => {},
            FunctionReturnType::Bool(_) => {},
            FunctionReturnType::Str(_) => {},
        }
    }
}

} // verus!
