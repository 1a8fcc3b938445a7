//! The function library: the elementary and higher-order operations on
//! encoded 64-bit IEEE-754 values, the classification of invalid results,
//! and the construction of their error messages.
use vstd::prelude::*;

use crate::decimal::dec_rep;
use crate::decimal::u64_string;
use crate::double::abs_bits;
use crate::double::add_bits;
use crate::double::add_of;
use crate::double::div_bits;
use crate::double::div_of;
use crate::double::double_abs;
use crate::double::double_le;
use crate::double::double_less_than;
use crate::double::double_lt;
use crate::double::double_of_decimal;
use crate::double::double_of_u32;
use crate::double::double_to_u32;
use crate::double::fmod_bits;
use crate::double::fmod_of;
use crate::double::is_inf_bits;
use crate::double::is_finite_bits;
use crate::double::is_zero_bits;
use crate::double::is_integral_bits;
use crate::double::is_nan_bits;
use crate::double::max_bits;
use crate::double::min_bits;
use crate::double::mul_bits;
use crate::double::mul_of;
use crate::double::double_is_integral;
use crate::double::double_max;
use crate::double::double_min;
use crate::double::parse_double;
use crate::double::sign_bit;
use crate::double::sub_bits;
use crate::double::sub_of;
use crate::double::to_u32_bits;
use crate::double::u32_to_double;
use crate::error::FunctionError;
use crate::error::FunctionErrorType;
use crate::render::canon_of;
use crate::render::plain_style;
use crate::render::render_plain;
use crate::render::render_sci;
use crate::render::sci_style;

verus! {

#[derive(Clone, Debug, PartialEq)]
pub enum Func {
    Elementary(ElementaryFunc),
    HigherOrder(HigherOrderFunc),
}

/// A computed value: a 64-bit IEEE-754 value carried as its bit pattern, a
/// boolean from a comparison, a 32-bit integer from the factorial, or the
/// name of an unbound variable passed through symbolically.
#[derive(Debug, PartialEq)]
pub enum FunctionReturnType {
    F64(u64),
    Bool(bool),
    U32(u32),
    Str(String),
}

#[derive(Debug, PartialEq, Eq, Structural, Clone, Copy)]
pub enum ElementaryFunc {
    Addition,
    Division,
    Modulo,
    Multiplication,
    Subtraction,
    LessThan,
    GreaterThan,
}

#[derive(Debug, PartialEq, Eq, Structural, Clone, Copy)]
pub enum HigherOrderFunc {
    Factorial(u8),
    EucleadianModulo(u8),
    Minimum(u8),
    Maximum(u8),
    Absolute(u8),
}

/// The parameter count stored in a higher-order function value.
pub open spec fn stored_params(f: HigherOrderFunc) -> u8 {
    match f {
        HigherOrderFunc::Absolute(n) => n,
        HigherOrderFunc::Factorial(n) => n,
        HigherOrderFunc::Maximum(n) => n,
        HigherOrderFunc::Minimum(n) => n,
        HigherOrderFunc::EucleadianModulo(n) => n,
    }
}

impl HigherOrderFunc {
    pub fn get_param_count(&self) -> (r: &u8)
        ensures
            *r == stored_params(*self),
    {
        match self {
            HigherOrderFunc::Absolute(num_of_params)
            | HigherOrderFunc::Factorial(num_of_params)
            | HigherOrderFunc::Maximum(num_of_params)
            | HigherOrderFunc::Minimum(num_of_params)
            | HigherOrderFunc::EucleadianModulo(num_of_params) => num_of_params,
        }
    }
}

/// The keyword table of the single-character elementary operators.
pub open spec fn elementary_func_of_char(c: char) -> Option<ElementaryFunc> {
    if c == '+' {
        Some(ElementaryFunc::Addition)
    } else if c == '/' {
        Some(ElementaryFunc::Division)
    } else if c == '%' {
        Some(ElementaryFunc::Modulo)
    } else if c == '*' {
        Some(ElementaryFunc::Multiplication)
    } else if c == '-' {
        Some(ElementaryFunc::Subtraction)
    } else if c == '<' {
        Some(ElementaryFunc::LessThan)
    } else if c == '>' {
        Some(ElementaryFunc::GreaterThan)
    } else {
        None
    }
}

/// Looks a character up in the elementary-operator keyword table.
pub fn elementary_func_for(c: char) -> (r: Option<ElementaryFunc>)
    ensures
        r == elementary_func_of_char(c),
{
    match c {
        '+' => Some(ElementaryFunc::Addition),
        '/' => Some(ElementaryFunc::Division),
        '%' => Some(ElementaryFunc::Modulo),
        '*' => Some(ElementaryFunc::Multiplication),
        '-' => Some(ElementaryFunc::Subtraction),
        '<' => Some(ElementaryFunc::LessThan),
        '>' => Some(ElementaryFunc::GreaterThan),
        _ => None,
    }
}

/// The keyword table of the higher-order function names, each with its
/// arity.
pub open spec fn higher_order_func_of_name(s: Seq<char>) -> Option<HigherOrderFunc> {
    if s == "Fac"@ {
        Some(HigherOrderFunc::Factorial(1))
    } else if s == "EMod"@ {
        Some(HigherOrderFunc::EucleadianModulo(2))
    } else if s == "Min"@ {
        Some(HigherOrderFunc::Minimum(2))
    } else if s == "Max"@ {
        Some(HigherOrderFunc::Maximum(2))
    } else if s == "Abs"@ {
        Some(HigherOrderFunc::Absolute(1))
    } else {
        None
    }
}

/// Looks a name up in the higher-order keyword table.
pub fn higher_order_func_for(s: &str) -> (r: Option<HigherOrderFunc>)
    ensures
        r == higher_order_func_of_name(s@),
{
    let v = crate::render::str_chars(s);
    if crate::render::chars_eq_str(&v, "Fac") {
        Some(HigherOrderFunc::Factorial(1))
    } else if crate::render::chars_eq_str(&v, "EMod") {
        Some(HigherOrderFunc::EucleadianModulo(2))
    } else if crate::render::chars_eq_str(&v, "Min") {
        Some(HigherOrderFunc::Minimum(2))
    } else if crate::render::chars_eq_str(&v, "Max") {
        Some(HigherOrderFunc::Maximum(2))
    } else if crate::render::chars_eq_str(&v, "Abs") {
        Some(HigherOrderFunc::Absolute(1))
    } else {
        None
    }
}

/// The bits of the lower bound of the range whose members error messages
/// print in plain decimal.
pub open spec fn plain_lo_bits() -> u64 {
    match double_of_decimal("0.00001"@) {
        Some(b) => b,
        None => 0,
    }
}

/// The bits of the upper bound of the range whose members error messages
/// print in plain decimal.
pub open spec fn plain_hi_bits() -> u64 {
    match double_of_decimal("10000.0"@) {
        Some(b) => b,
        None => 0,
    }
}

/// Whether error messages print the value in plain decimal rather than in
/// scientific notation.
pub open spec fn in_plain_range(x: u64) -> bool {
    double_le(plain_lo_bits(), x) && double_le(x, plain_hi_bits())
}

/// The rendering of an operand in an error message: plain decimal inside
/// the plain range, scientific outside it.
pub open spec fn fmt_ranged(x: u64) -> Seq<char> {
    if in_plain_range(x) {
        plain_style(canon_of(x))
    } else {
        sci_style(canon_of(x))
    }
}

fn exec_plain_lo() -> (r: u64)
    ensures
        r == plain_lo_bits(),
{
    match parse_double("0.00001") {
        Some(b) => b,
        None => 0,
    }
}

fn exec_plain_hi() -> (r: u64)
    ensures
        r == plain_hi_bits(),
{
    match parse_double("10000.0") {
        Some(b) => b,
        None => 0,
    }
}

fn exec_in_plain_range(x: u64) -> (r: bool)
    ensures
        r == in_plain_range(x),
{
    let lo = exec_plain_lo();
    let hi = exec_plain_hi();
    let a = crate::double::double_less_equal(lo, x);
    let b = crate::double::double_less_equal(x, hi);
    a && b
}

fn exec_fmt_ranged(x: u64) -> (r: String)
    ensures
        r@ == fmt_ranged(x),
{
    if exec_in_plain_range(x) {
        render_plain(x)
    } else {
        render_sci(x)
    }
}

/// The message reported when a division produced no value.
pub open spec fn div_zero_text(a: u64, b: u64) -> Seq<char> {
    "You cannot divide by zero. You tried to divide "@ + fmt_ranged(a) + " by "@ + plain_style(canon_of(b))
        + " which has no result."@
}

/// The message reported when an operation overflowed (or underflowed) the
/// 64-bit floating-point range.
pub open spec fn overflow_text(a: u64, b: u64, op: Seq<char>, over: bool) -> Seq<char> {
    "The "@ + op + " of "@ + fmt_ranged(a) + " and "@ + fmt_ranged(b) + (if over {
        " results in an overflow of the 64bit floating point range (1.7976931348623157e308) and can only be displayed as inf."@
    } else {
        " results in an underflow of the 64bit floating point range (-1.7976931348623157e308) and can only be displayed as -inf."@
    })
}

/// The message reported when a factorial does not fit in 32 bits; `a` is
/// the bits of the operand as a 64-bit value.
pub open spec fn factorial_text(a: u64) -> Seq<char> {
    "The factorial of this number ("@ + (if double_lt(plain_hi_bits(), a) {
        sci_style(canon_of(a))
    } else {
        plain_style(canon_of(a))
    }) + ") is too large to fit into the maximum range of a 32bit unsigned integer (4.294967295e9)."@
}

/// Builds the message for an error coming out of a math function.
pub(crate) fn create_error(
    error_type: FunctionErrorType,
    first_num: u64,
    second_num: Option<u64>,
    operation_name: Option<&str>,
) -> (r: FunctionError)
    requires
        error_type != FunctionErrorType::InvalidParameterType,
        error_type == FunctionErrorType::DivisionByZero ==> second_num is Some,
        error_type == FunctionErrorType::OverflowInf || error_type == FunctionErrorType::UnderflowInf
            ==> second_num is Some && operation_name is Some,
    ensures
        r.error_type == error_type,
        error_type == FunctionErrorType::DivisionByZero ==> r.error@ == div_zero_text(
            first_num,
            second_num->Some_0,
        ),
        error_type == FunctionErrorType::FactorialError ==> r.error@ == factorial_text(first_num),
        error_type == FunctionErrorType::OverflowInf ==> r.error@ == overflow_text(
            first_num,
            second_num->Some_0,
            operation_name->Some_0@,
            true,
        ),
        error_type == FunctionErrorType::UnderflowInf ==> r.error@ == overflow_text(
            first_num,
            second_num->Some_0,
            operation_name->Some_0@,
            false,
        ),
{
    match error_type {
        FunctionErrorType::DivisionByZero => {
            let b = match second_num {
                Some(b) => b,
                None => 0,
            };
            let msg = String::from_str("You cannot divide by zero. You tried to divide ").concat(
                exec_fmt_ranged(first_num).as_str(),
            ).concat(" by ").concat(render_plain(b).as_str()).concat(" which has no result.");
            proof {
                assert(msg@ =~= div_zero_text(first_num, b));
            }
            FunctionError::new(msg, FunctionErrorType::DivisionByZero)
        },
        FunctionErrorType::FactorialError => {
            let hi = exec_plain_hi();
            let rendered = if double_less_than(hi, first_num) {
                render_sci(first_num)
            } else {
                render_plain(first_num)
            };
            let msg = String::from_str("The factorial of this number (").concat(rendered.as_str()).concat(
                ") is too large to fit into the maximum range of a 32bit unsigned integer (4.294967295e9).",
            );
            proof {
                assert(msg@ =~= factorial_text(first_num));
            }
            FunctionError::new(msg, FunctionErrorType::FactorialError)
        },
        _ => {
            let b = match second_num {
                Some(b) => b,
                None => 0,
            };
            let op = match operation_name {
                Some(op) => op,
                None => "",
            };
            let over = matches!(error_type, FunctionErrorType::OverflowInf);
            let mut msg = String::from_str("The ").concat(op).concat(" of ").concat(
                exec_fmt_ranged(first_num).as_str(),
            ).concat(" and ").concat(exec_fmt_ranged(b).as_str());
            let msg = if over {
                msg.concat(
                    " results in an overflow of the 64bit floating point range (1.7976931348623157e308) and can only be displayed as inf.",
                )
            } else {
                msg.concat(
                    " results in an underflow of the 64bit floating point range (-1.7976931348623157e308) and can only be displayed as -inf.",
                )
            };
            proof {
                assert(msg@ =~= overflow_text(first_num, b, op@, over));
            }
            FunctionError::new(
                msg,
                if over {
                    FunctionErrorType::OverflowInf
                } else {
                    FunctionErrorType::UnderflowInf
                },
            )
        },
    }
}

/// Returns true if the first of the two encoded values is smaller than the
/// second.
pub fn less_than(a: u64, b: u64) -> (r: FunctionReturnType)
    ensures
        r == FunctionReturnType::Bool(double_lt(a, b)),
{
    FunctionReturnType::Bool(double_less_than(a, b))
}

/// Returns true if the first of the two encoded values is greater than the
/// second.
pub fn greater_than(a: u64, b: u64) -> (r: FunctionReturnType)
    ensures
        r == FunctionReturnType::Bool(double_lt(b, a)),
{
    FunctionReturnType::Bool(double_less_than(b, a))
}

/// Returns the absolute value of the encoded value.
pub fn absolute(num: u64) -> (r: FunctionReturnType)
    ensures
        r == FunctionReturnType::F64(abs_bits(num)),
{
    FunctionReturnType::F64(double_abs(num))
}

/// Returns the minimum of the two encoded values.
pub fn minimum(a: u64, b: u64) -> (r: FunctionReturnType)
    ensures
        r == FunctionReturnType::F64(min_bits(a, b)),
{
    FunctionReturnType::F64(double_min(a, b))
}

/// Returns the maximum of the two encoded values.
pub fn maximum(a: u64, b: u64) -> (r: FunctionReturnType)
    ensures
        r == FunctionReturnType::F64(max_bits(a, b)),
{
    FunctionReturnType::F64(double_max(a, b))
}

/// The factorial function on naturals.
pub open spec fn fact(n: nat) -> nat
    decreases n,
{
    if n == 0 {
        1
    } else {
        n * fact((n - 1) as nat)
    }
}

proof fn lemma_fact_ge_arg(n: nat)
    requires
        n >= 1,
    ensures
        fact(n) >= n,
    decreases n,
{
    if n > 1 {
        lemma_fact_ge_arg((n - 1) as nat);
        assert(fact(n) == n * fact((n - 1) as nat));
        assert(fact(n) >= n * 1) by (nonlinear_arith)
            requires
                fact(n) == n * fact((n - 1) as nat),
                fact((n - 1) as nat) >= 1,
                n >= 1,
        ;
    } else {
        assert(n == 1);
        assert(fact(1) == 1 * fact(0));
        assert(fact(0) == 1);
    }
}

/// Calculates the factorial of a 32-bit unsigned integer, detecting before
/// each multiplication whether the product would overflow.
pub fn factorial(num: u32) -> (r: Result<FunctionReturnType, FunctionError>)
    ensures
        fact(num as nat) <= 0xFFFF_FFFF ==> r == Ok::<FunctionReturnType, FunctionError>(
            FunctionReturnType::U32(fact(num as nat) as u32),
        ),
        fact(num as nat) > 0xFFFF_FFFF ==> (r matches Err(e) && e.error_type == FunctionErrorType::FactorialError
            && e.error@ == factorial_text(double_of_u32(num))),
{
    let mut val = num;
    let mut result: u32 = 1;

    proof {
        if num >= 1 {
            vstd::arithmetic::div_mod::lemma_div_non_zero(0xFFFF_FFFF, num as int);
        }
    }
    while val > 1
        invariant
            result as nat * fact(val as nat) == fact(num as nat),
            1 <= result,
            val >= 1 ==> result as int <= 0xFFFF_FFFFint / (val as int),
            val <= num,
        decreases val,
    {
        proof {
            vstd::arithmetic::div_mod::lemma_fundamental_div_mod(0xFFFF_FFFF, val as int);
            assert(result as int * val as int <= 0xFFFF_FFFFint) by (nonlinear_arith)
                requires
                    result as int <= 0xFFFF_FFFFint / (val as int),
                    0xFFFF_FFFFint == (val as int) * (0xFFFF_FFFFint / (val as int)) + 0xFFFF_FFFFint % (val as int),
                    0 <= 0xFFFF_FFFFint % (val as int),
                    1 <= val as int,
                    1 <= result as int,
            ;
            assert(fact(val as nat) == val as nat * fact((val - 1) as nat));
        }
        let ghost old_result = result;
        result = result * val;
        proof {
            assert(result as nat * fact((val - 1) as nat) == fact(num as nat)) by (nonlinear_arith)
                requires
                    result as nat == old_result as nat * val as nat,
                    old_result as nat * fact(val as nat) == fact(num as nat),
                    fact(val as nat) == val as nat * fact((val - 1) as nat),
            ;
            assert(1 <= result) by (nonlinear_arith)
                requires
                    result as nat == old_result as nat * val as nat,
                    1 <= old_result,
                    1 <= val,
            ;
        }

        if result > 0xFFFF_FFFFu32 / (val - 1) {
            proof {
                let f = (val - 1) as nat;
                vstd::arithmetic::div_mod::lemma_fundamental_div_mod(0xFFFF_FFFF, f as int);
                assert(result as nat * f > 0xFFFF_FFFFnat) by (nonlinear_arith)
                    requires
                        result as int > 0xFFFF_FFFFint / (f as int),
                        f >= 1,
                        0xFFFF_FFFFint == (f as int) * (0xFFFF_FFFFint / (f as int)) + 0xFFFF_FFFFint % (f as int),
                        0xFFFF_FFFFint % (f as int) < f as int,
                ;
                lemma_fact_ge_arg(f);
                assert(result as nat * fact(f) >= result as nat * f) by (nonlinear_arith)
                    requires
                        fact(f) >= f,
                        result >= 1,
                ;
                assert(fact(num as nat) > 0xFFFF_FFFF);
            }
            return Err(
                create_error(FunctionErrorType::FactorialError, u32_to_double(num), None, None),
            );
        }

        val = val - 1;
    }

    proof {
        if val == 1 {
            assert(fact(1) == 1 * fact(0));
            assert(fact(0) == 1);
        } else {
            assert(val == 0);
            assert(fact(0) == 1);
        }
        assert(fact(val as nat) == 1);
        assert(result as nat * fact(val as nat) == result as nat) by (nonlinear_arith)
            requires
                fact(val as nat) == 1,
        ;
        assert(fact(num as nat) == result as nat);
    }
    Ok(FunctionReturnType::U32(result))
}

/// Calculates the sum of two encoded values, classifying an infinite result
/// as overflow or underflow.
pub fn addition(a: u64, b: u64) -> (r: Result<FunctionReturnType, FunctionError>)
    ensures
        ({
            let v = add_of(a, b);
            if is_inf_bits(v) && sign_bit(v) {
                r matches Err(e) && e.error_type == FunctionErrorType::UnderflowInf && e.error@ == overflow_text(
                    a,
                    b,
                    "addition"@,
                    false,
                )
            } else if is_inf_bits(v) {
                r matches Err(e) && e.error_type == FunctionErrorType::OverflowInf && e.error@ == overflow_text(
                    a,
                    b,
                    "addition"@,
                    true,
                )
            } else {
                r == Ok::<FunctionReturnType, FunctionError>(FunctionReturnType::F64(v))
            }
        }),
        r matches Ok(v) ==> (v matches FunctionReturnType::F64(x) && !is_inf_bits(x)),
{
    let v = add_bits(a, b);
    if crate::double::double_is_sign_negative(v) && crate::double::double_is_infinite(v) {
        Err(create_error(FunctionErrorType::UnderflowInf, a, Some(b), Some("addition")))
    } else if crate::double::double_is_infinite(v) {
        Err(create_error(FunctionErrorType::OverflowInf, a, Some(b), Some("addition")))
    } else {
        Ok(FunctionReturnType::F64(v))
    }
}

/// Calculates the difference of two encoded values, classifying an infinite
/// result as overflow or underflow.
pub fn subtraction(a: u64, b: u64) -> (r: Result<FunctionReturnType, FunctionError>)
    ensures
        ({
            let v = sub_of(a, b);
            if is_inf_bits(v) && sign_bit(v) {
                r matches Err(e) && e.error_type == FunctionErrorType::UnderflowInf && e.error@ == overflow_text(
                    a,
                    b,
                    "subtraction"@,
                    false,
                )
            } else if is_inf_bits(v) {
                r matches Err(e) && e.error_type == FunctionErrorType::OverflowInf && e.error@ == overflow_text(
                    a,
                    b,
                    "subtraction"@,
                    true,
                )
            } else {
                r == Ok::<FunctionReturnType, FunctionError>(FunctionReturnType::F64(v))
            }
        }),
        r matches Ok(v) ==> (v matches FunctionReturnType::F64(x) && !is_inf_bits(x)),
{
    let v = sub_bits(a, b);
    if crate::double::double_is_sign_negative(v) && crate::double::double_is_infinite(v) {
        Err(create_error(FunctionErrorType::UnderflowInf, a, Some(b), Some("subtraction")))
    } else if crate::double::double_is_infinite(v) {
        Err(create_error(FunctionErrorType::OverflowInf, a, Some(b), Some("subtraction")))
    } else {
        Ok(FunctionReturnType::F64(v))
    }
}

/// Calculates the remainder of the division of two encoded values.
pub fn modulo(a: u64, n: u64) -> (r: FunctionReturnType)
    ensures
        r == FunctionReturnType::F64(fmod_of(a, n)),
{
    FunctionReturnType::F64(fmod_bits(a, n))
}

/// Calculates the Euclidean remainder of the division of two encoded
/// values: the plain remainder, shifted up by the magnitude of the divisor
/// when it comes out negative.
pub fn modulo_euclid(a: u64, n: u64) -> (r: FunctionReturnType)
    ensures
        ({
            let rr = fmod_of(a, n);
            r == FunctionReturnType::F64(
                if double_lt(rr, 0) {
                    add_of(rr, abs_bits(n))
                } else {
                    rr
                },
            )
        }),
{
    let rr = fmod_bits(a, n);
    if double_less_than(rr, 0) {
        FunctionReturnType::F64(add_bits(rr, double_abs(n)))
    } else {
        FunctionReturnType::F64(rr)
    }
}

/// Calculates the product of two encoded values, classifying an infinite
/// result as overflow or underflow.
pub fn multiplication(a: u64, b: u64) -> (r: Result<FunctionReturnType, FunctionError>)
    ensures
        ({
            let v = mul_of(a, b);
            if is_inf_bits(v) && sign_bit(v) {
                r matches Err(e) && e.error_type == FunctionErrorType::UnderflowInf && e.error@ == overflow_text(
                    a,
                    b,
                    "multiplication"@,
                    false,
                )
            } else if is_inf_bits(v) {
                r matches Err(e) && e.error_type == FunctionErrorType::OverflowInf && e.error@ == overflow_text(
                    a,
                    b,
                    "multiplication"@,
                    true,
                )
            } else {
                r == Ok::<FunctionReturnType, FunctionError>(FunctionReturnType::F64(v))
            }
        }),
        r matches Ok(v) ==> (v matches FunctionReturnType::F64(x) && !is_inf_bits(x)),
{
    let v = mul_bits(a, b);
    if crate::double::double_is_sign_negative(v) && crate::double::double_is_infinite(v) {
        Err(create_error(FunctionErrorType::UnderflowInf, a, Some(b), Some("multiplication")))
    } else if crate::double::double_is_infinite(v) {
        Err(create_error(FunctionErrorType::OverflowInf, a, Some(b), Some("multiplication")))
    } else {
        Ok(FunctionReturnType::F64(v))
    }
}

/// Calculates the quotient of two encoded values: a NaN result is division
/// by zero, and an infinite result overflow or underflow.
pub fn division(a: u64, b: u64) -> (r: Result<FunctionReturnType, FunctionError>)
    ensures
        ({
            let v = div_of(a, b);
            if is_nan_bits(v) {
                r matches Err(e) && e.error_type == FunctionErrorType::DivisionByZero && e.error@ == div_zero_text(
                    a,
                    b,
                )
            } else if is_inf_bits(v) && sign_bit(v) {
                r matches Err(e) && e.error_type == FunctionErrorType::UnderflowInf && e.error@ == overflow_text(
                    a,
                    b,
                    "division"@,
                    false,
                )
            } else if is_inf_bits(v) {
                r matches Err(e) && e.error_type == FunctionErrorType::OverflowInf && e.error@ == overflow_text(
                    a,
                    b,
                    "division"@,
                    true,
                )
            } else {
                r == Ok::<FunctionReturnType, FunctionError>(FunctionReturnType::F64(v))
            }
        }),
        r matches Ok(v) ==> (v matches FunctionReturnType::F64(x) && !is_inf_bits(x) && !is_nan_bits(x)),
        is_zero_bits(b) && is_finite_bits(a) ==> r is Err,
        is_zero_bits(b) && is_zero_bits(a) ==> (r matches Err(e) && e.error_type
            == FunctionErrorType::DivisionByZero),
        is_zero_bits(b) && is_finite_bits(a) && !is_zero_bits(a) && (sign_bit(a) == sign_bit(b)) ==> (r matches Err(
            e,
        ) && e.error_type == FunctionErrorType::OverflowInf),
        is_zero_bits(b) && is_finite_bits(a) && !is_zero_bits(a) && (sign_bit(a) != sign_bit(b)) ==> (r matches Err(
            e,
        ) && e.error_type == FunctionErrorType::UnderflowInf),
{
    let v = div_bits(a, b);
    if crate::double::double_is_nan(v) {
        Err(create_error(FunctionErrorType::DivisionByZero, a, Some(b), None))
    } else if crate::double::double_is_sign_negative(v) && crate::double::double_is_infinite(v) {
        Err(create_error(FunctionErrorType::UnderflowInf, a, Some(b), Some("division")))
    } else if crate::double::double_is_infinite(v) {
        Err(create_error(FunctionErrorType::OverflowInf, a, Some(b), Some("division")))
    } else {
        Ok(FunctionReturnType::F64(v))
    }
}

/// The message reported when a parameter of the wrong kind reaches a
/// function expecting a 64-bit value.
pub open spec fn expected_f64_text(v: FunctionReturnType) -> Seq<char> {
    match v {
        FunctionReturnType::F64(_) => Seq::empty(),
        FunctionReturnType::U32(n) => "Expected a f64 as a parameter but got a u32 "@ + dec_rep(n as nat),
        FunctionReturnType::Bool(b) => "Expected a f64 as a parameter but got a boolean "@ + (if b {
            "true"@
        } else {
            "false"@
        }),
        FunctionReturnType::Str(s) => "Expected a f64 as a parameter but got a string \""@ + s@ + "\""@,
    }
}

/// The message reported when a parameter of the wrong kind reaches the
/// factorial, which expects a 32-bit integer.
pub open spec fn expected_u32_text(v: FunctionReturnType) -> Seq<char> {
    match v {
        FunctionReturnType::F64(b) => "Expected a u32 as a parameter but got a f64 "@ + plain_style(canon_of(b)),
        FunctionReturnType::U32(_) => Seq::empty(),
        FunctionReturnType::Bool(b) => "Expected a u32 as a parameter but got a boolean "@ + (if b {
            "true"@
        } else {
            "false"@
        }),
        FunctionReturnType::Str(s) => "Expected a u32 as a parameter but got a string \""@ + s@ + "\""@,
    }
}

impl FunctionReturnType {
    /// Extracts the encoded 64-bit value, rejecting every other kind of
    /// result as a parameter-type error.
    pub fn get_f64(self) -> (r: Result<u64, FunctionError>)
        ensures
            self matches FunctionReturnType::F64(b) ==> r == Ok::<u64, FunctionError>(b),
            !(self is F64) ==> (r matches Err(e) && e.error_type == FunctionErrorType::InvalidParameterType
                && e.error@ == expected_f64_text(self)),
    {
        match self {
            FunctionReturnType::F64(num) => Ok(num),
            FunctionReturnType::U32(num) => {
                let msg = String::from_str("Expected a f64 as a parameter but got a u32 ").concat(
                    u64_string(num as u64).as_str(),
                );
                proof {
                    assert(msg@ =~= expected_f64_text(FunctionReturnType::U32(num)));
                }
                Err(FunctionError::new(msg, FunctionErrorType::InvalidParameterType))
            },
            FunctionReturnType::Bool(val) => {
                let msg = String::from_str("Expected a f64 as a parameter but got a boolean ").concat(
                    if val {
                        "true"
                    } else {
                        "false"
                    },
                );
                proof {
                    assert(msg@ =~= expected_f64_text(FunctionReturnType::Bool(val)));
                }
                Err(FunctionError::new(msg, FunctionErrorType::InvalidParameterType))
            },
            FunctionReturnType::Str(s) => {
                let msg = String::from_str("Expected a f64 as a parameter but got a string \"").concat(
                    s.as_str(),
                ).concat("\"");
                proof {
                    assert(msg@ =~= expected_f64_text(FunctionReturnType::Str(s)));
                }
                Err(FunctionError::new(msg, FunctionErrorType::InvalidParameterType))
            },
        }
    }

    /// Extracts a 32-bit integer: either one directly, or a 64-bit value
    /// with zero fractional part, converted by truncation; everything else
    /// is a parameter-type error.
    pub fn get_u32(self) -> (r: Result<u32, FunctionError>)
        ensures
            self matches FunctionReturnType::U32(n) ==> r == Ok::<u32, FunctionError>(n),
            self matches FunctionReturnType::F64(b) ==> (if is_integral_bits(b) {
                r == Ok::<u32, FunctionError>(to_u32_bits(b))
            } else {
                r matches Err(e) && e.error_type == FunctionErrorType::InvalidParameterType && e.error@
                    == expected_u32_text(self)
            }),
            (self is Bool || self is Str) ==> (r matches Err(e) && e.error_type
                == FunctionErrorType::InvalidParameterType && e.error@ == expected_u32_text(self)),
    {
        match self {
            FunctionReturnType::F64(num) => {
                if double_is_integral(num) {
                    Ok(double_to_u32(num))
                } else {
                    let msg = String::from_str("Expected a u32 as a parameter but got a f64 ").concat(
                        render_plain(num).as_str(),
                    );
                    proof {
                        assert(msg@ =~= expected_u32_text(FunctionReturnType::F64(num)));
                    }
                    Err(FunctionError::new(msg, FunctionErrorType::InvalidParameterType))
                }
            },
            FunctionReturnType::U32(num) => Ok(num),
            FunctionReturnType::Bool(val) => {
                let msg = String::from_str("Expected a u32 as a parameter but got a boolean ").concat(
                    if val {
                        "true"
                    } else {
                        "false"
                    },
                );
                proof {
                    assert(msg@ =~= expected_u32_text(FunctionReturnType::Bool(val)));
                }
                Err(FunctionError::new(msg, FunctionErrorType::InvalidParameterType))
            },
            FunctionReturnType::Str(s) => {
                let msg = String::from_str("Expected a u32 as a parameter but got a string \"").concat(
                    s.as_str(),
                ).concat("\"");
                proof {
                    assert(msg@ =~= expected_u32_text(FunctionReturnType::Str(s)));
                }
                Err(FunctionError::new(msg, FunctionErrorType::InvalidParameterType))
            },
        }
    }
}

} // verus!
