//! The numeric model of the evaluator.
//!
//! A 64-bit IEEE-754 value is carried through the library as its bit pattern
//! (a `u64`).  Classification (NaN, infinity, sign, zero), ordering, absolute
//! value, minimum/maximum, integrality and conversion to `u32` are defined
//! here directly over the bit pattern, following the IEEE-754 interchange
//! format: bit 63 is the sign, bits 62..52 the biased exponent, bits 51..0
//! the fraction.  The four rounding arithmetic operations and the conversion
//! between decimal text and bit patterns cannot be stated in a few lines;
//! they are delegated to `rustc_apfloat` (a software implementation of
//! IEEE-754) behind trusted wrappers whose results are named.
use vstd::prelude::*;

use rustc_apfloat::Float;
use rustc_apfloat::ieee::Double;

verus! {

/// True when the sign bit of `b` is set.
pub open spec fn sign_bit(b: u64) -> bool {
    b >= 0x8000_0000_0000_0000
}

/// The bit pattern of `b` with the sign bit cleared.
pub open spec fn abs_bits(b: u64) -> u64 {
    b & 0x7FFF_FFFF_FFFF_FFFF
}

/// The biased exponent field of `b`.
pub open spec fn exp_field(b: u64) -> u64 {
    (b >> 52) & 0x7FF
}

/// The fraction field of `b`.
pub open spec fn frac_field(b: u64) -> u64 {
    b & 0xF_FFFF_FFFF_FFFF
}

/// `b` encodes a NaN: exponent field all ones, fraction nonzero.
pub open spec fn is_nan_bits(b: u64) -> bool {
    abs_bits(b) > 0x7FF0_0000_0000_0000
}

/// `b` encodes an infinity of either sign.
pub open spec fn is_inf_bits(b: u64) -> bool {
    abs_bits(b) == 0x7FF0_0000_0000_0000
}

/// `b` encodes a finite value (zero, subnormal or normal).
pub open spec fn is_finite_bits(b: u64) -> bool {
    abs_bits(b) < 0x7FF0_0000_0000_0000
}

/// `b` encodes a zero of either sign.
pub open spec fn is_zero_bits(b: u64) -> bool {
    abs_bits(b) == 0
}

/// The IEEE-754 `<` order on encoded values: false whenever either side is a
/// NaN, and otherwise the sign-magnitude order (the two zeros are equal, and
/// for values of equal sign the encoding orders magnitudes like integers).
pub open spec fn double_lt(a: u64, b: u64) -> bool {
    if is_nan_bits(a) || is_nan_bits(b) {
        false
    } else if sign_bit(a) != sign_bit(b) {
        sign_bit(a) && !(abs_bits(a) == 0 && abs_bits(b) == 0)
    } else if !sign_bit(a) {
        abs_bits(a) < abs_bits(b)
    } else {
        abs_bits(b) < abs_bits(a)
    }
}

/// The IEEE-754 `==` relation on encoded values: never true for NaN, and the
/// two zeros are equal.
pub open spec fn double_eq(a: u64, b: u64) -> bool {
    !is_nan_bits(a) && !is_nan_bits(b) && (a == b || (abs_bits(a) == 0 && abs_bits(b) == 0))
}

/// The IEEE-754 `<=` relation on encoded values.
pub open spec fn double_le(a: u64, b: u64) -> bool {
    double_lt(a, b) || double_eq(a, b)
}

/// The minimum in the sense of `min` on IEEE-754 values: a NaN operand is
/// ignored in favour of the other.
pub open spec fn min_bits(a: u64, b: u64) -> u64 {
    if is_nan_bits(a) {
        b
    } else if is_nan_bits(b) {
        a
    } else if double_lt(b, a) {
        b
    } else {
        a
    }
}

/// The maximum in the sense of `max` on IEEE-754 values: a NaN operand is
/// ignored in favour of the other.
pub open spec fn max_bits(a: u64, b: u64) -> u64 {
    if is_nan_bits(a) {
        b
    } else if is_nan_bits(b) {
        a
    } else if double_lt(a, b) {
        b
    } else {
        a
    }
}

/// `b` encodes a value with zero fractional part.  A nonzero finite value
/// `(2^52 + f) * 2^(e - 1075)` is integral exactly when `e >= 1075` or the
/// low `1075 - e` fraction bits are zero; NaN and the infinities are not.
pub open spec fn is_integral_bits(b: u64) -> bool {
    if !is_finite_bits(b) {
        false
    } else if abs_bits(b) == 0 {
        true
    } else if exp_field(b) >= 1075 {
        true
    } else if exp_field(b) >= 1023 {
        frac_field(b) & (((1u64 << (1075 - exp_field(b)) as u64) - 1) as u64) == 0
    } else {
        false
    }
}

/// The value of `b` converted to `u32` the way an `as` cast converts: the
/// value is truncated toward zero and clamped to the `u32` range, and NaN
/// becomes zero.
pub open spec fn to_u32_bits(b: u64) -> u32 {
    if is_nan_bits(b) {
        0
    } else if sign_bit(b) {
        0
    } else if is_inf_bits(b) {
        0xFFFF_FFFFu32
    } else if exp_field(b) >= 1055 {
        0xFFFF_FFFFu32
    } else if exp_field(b) < 1023 {
        0
    } else {
        ((0x10_0000_0000_0000u64 | frac_field(b)) >> ((1075 - exp_field(b)) as u64)) as u32
    }
}

/// The floor of the base-two logarithm.
pub open spec fn log2_nat(n: nat) -> nat
    decreases n,
{
    if n < 2 {
        0
    } else {
        1 + log2_nat(n / 2)
    }
}

/// The bit pattern of the 64-bit IEEE-754 value equal to `n` (every `u32` is
/// exactly representable): for `n` in `[2^k, 2^(k+1))` the biased exponent is
/// `1023 + k` and the fraction holds the bits of `n` below the leading one.
pub open spec fn double_of_u32(n: u32) -> u64 {
    if n == 0 {
        0
    } else {
        let k = log2_nat(n as nat);
        ((((1023 + k) as u64) << 52) | (((n as u64) << ((52 - k) as u64)) & 0xF_FFFF_FFFF_FFFF)) as u64
    }
}

pub proof fn lemma_log2_mono(a: nat, b: nat)
    requires
        a <= b,
    ensures
        log2_nat(a) <= log2_nat(b),
    decreases b,
{
    if b < 2 || a < 2 {
    } else {
        lemma_log2_mono(a / 2, b / 2);
    }
}

pub proof fn lemma_log2_le(n: nat, j: nat)
    requires
        n < vstd::arithmetic::power2::pow2(j + 1),
    ensures
        log2_nat(n) <= j,
    decreases j,
{
    if n < 2 {
    } else {
        vstd::arithmetic::power2::lemma_pow2_unfold(j + 1);
        vstd::arithmetic::power2::lemma_pow2_pos(j);
        assert(j >= 1) by {
            if j == 0 {
                vstd::arithmetic::power2::lemma2_to64();
            }
        }
        lemma_log2_le(n / 2, (j - 1) as nat);
    }
}

pub fn double_is_nan(b: u64) -> (r: bool)
    ensures
        r == is_nan_bits(b),
{
    (b & 0x7FFF_FFFF_FFFF_FFFF) > 0x7FF0_0000_0000_0000
}

pub fn double_is_infinite(b: u64) -> (r: bool)
    ensures
        r == is_inf_bits(b),
{
    (b & 0x7FFF_FFFF_FFFF_FFFF) == 0x7FF0_0000_0000_0000
}

pub fn double_is_sign_negative(b: u64) -> (r: bool)
    ensures
        r == sign_bit(b),
{
    b >= 0x8000_0000_0000_0000
}

pub fn double_is_zero(b: u64) -> (r: bool)
    ensures
        r == is_zero_bits(b),
{
    (b & 0x7FFF_FFFF_FFFF_FFFF) == 0
}

/// The `<` comparison on encoded values.
pub fn double_less_than(a: u64, b: u64) -> (r: bool)
    ensures
        r == double_lt(a, b),
{
    if double_is_nan(a) || double_is_nan(b) {
        false
    } else {
        let sa = double_is_sign_negative(a);
        let sb = double_is_sign_negative(b);
        let ma = a & 0x7FFF_FFFF_FFFF_FFFF;
        let mb = b & 0x7FFF_FFFF_FFFF_FFFF;
        if sa != sb {
            sa && !(ma == 0 && mb == 0)
        } else if !sa {
            ma < mb
        } else {
            mb < ma
        }
    }
}

/// The `<=` comparison on encoded values.
pub fn double_less_equal(a: u64, b: u64) -> (r: bool)
    ensures
        r == double_le(a, b),
{
    if double_is_nan(a) || double_is_nan(b) {
        false
    } else if a == b || ((a & 0x7FFF_FFFF_FFFF_FFFF) == 0 && (b & 0x7FFF_FFFF_FFFF_FFFF) == 0) {
        true
    } else {
        double_less_than(a, b)
    }
}

/// The absolute value on encoded values: the sign bit is cleared.
pub fn double_abs(b: u64) -> (r: u64)
    ensures
        r == abs_bits(b),
{
    b & 0x7FFF_FFFF_FFFF_FFFF
}

/// The NaN-ignoring minimum on encoded values.
pub fn double_min(a: u64, b: u64) -> (r: u64)
    ensures
        r == min_bits(a, b),
{
    if double_is_nan(a) {
        b
    } else if double_is_nan(b) {
        a
    } else if double_less_than(b, a) {
        b
    } else {
        a
    }
}

/// The NaN-ignoring maximum on encoded values.
pub fn double_max(a: u64, b: u64) -> (r: u64)
    ensures
        r == max_bits(a, b),
{
    if double_is_nan(a) {
        b
    } else if double_is_nan(b) {
        a
    } else if double_less_than(a, b) {
        b
    } else {
        a
    }
}

/// Whether the encoded value has zero fractional part.
pub fn double_is_integral(b: u64) -> (r: bool)
    ensures
        r == is_integral_bits(b),
{
    let mag = b & 0x7FFF_FFFF_FFFF_FFFF;
    let e = (b >> 52) & 0x7FF;
    if mag >= 0x7FF0_0000_0000_0000 {
        false
    } else if mag == 0 {
        true
    } else if e >= 1075 {
        true
    } else if e >= 1023 {
        let shift: u64 = 1075 - e;
        proof {
            assert(1u64 << shift >= 1) by (bit_vector)
                requires
                    1 <= shift <= 52,
            ;
        }
        (b & 0xF_FFFF_FFFF_FFFF) & ((1u64 << shift) - 1) == 0
    } else {
        false
    }
}

/// Converts the encoded value to `u32` as an `as` cast does.
pub fn double_to_u32(b: u64) -> (r: u32)
    ensures
        r == to_u32_bits(b),
{
    let mag = b & 0x7FFF_FFFF_FFFF_FFFF;
    let e = (b >> 52) & 0x7FF;
    if mag > 0x7FF0_0000_0000_0000 {
        0
    } else if b >= 0x8000_0000_0000_0000 {
        0
    } else if mag == 0x7FF0_0000_0000_0000 {
        0xFFFF_FFFFu32
    } else if e >= 1055 {
        0xFFFF_FFFFu32
    } else if e < 1023 {
        0
    } else {
        let shift: u64 = 1075 - e;
        ((0x10_0000_0000_0000u64 | (b & 0xF_FFFF_FFFF_FFFF)) >> shift) as u32
    }
}

/// The bit pattern of the 64-bit IEEE-754 value equal to `n`.
pub fn u32_to_double(n: u32) -> (r: u64)
    ensures
        r == double_of_u32(n),
{
    if n == 0 {
        0
    } else {
        let mut k: u64 = 0;
        let mut m: u32 = n;
        while m >= 2
            invariant
            1 <= m <= n,
            log2_nat(n as nat) == k + log2_nat(m as nat),
            k <= 31,
            decreases m,
        {
            proof {
                lemma_log2_mono(2, m as nat);
                vstd::arithmetic::power2::lemma2_to64();
                lemma_log2_le(n as nat, 31);
            }
            m = m / 2;
            k = k + 1;
        }
        ((1023 + k) << 52) | (((n as u64) << (52 - k)) & 0xF_FFFF_FFFF_FFFF)
    }
}

/// The bits of the rounded IEEE-754 sum of the two encoded values.
pub uninterp spec fn add_of(a: u64, b: u64) -> u64;

/// The bits of the rounded IEEE-754 difference of the two encoded values.
pub uninterp spec fn sub_of(a: u64, b: u64) -> u64;

/// The bits of the rounded IEEE-754 product of the two encoded values.
pub uninterp spec fn mul_of(a: u64, b: u64) -> u64;

/// The bits of the rounded IEEE-754 quotient of the two encoded values.
pub uninterp spec fn div_of(a: u64, b: u64) -> u64;

/// The bits of the IEEE-754 remainder (in the sense of C `fmod`) of the two
/// encoded values.
pub uninterp spec fn fmod_of(a: u64, b: u64) -> u64;

/// The bits of the value that the decimal text denotes, when it does denote
/// one (correctly rounded to nearest, as both the standard library and
/// `rustc_apfloat` parse), and `None` when the text is not a valid decimal.
pub uninterp spec fn double_of_decimal(s: Seq<char>) -> Option<u64>;

/// Relies on `rustc_apfloat`: `Double` addition rounds to nearest even, as
/// the hardware operation does.
#[verifier::external_body]
pub(crate) fn add_bits(a: u64, b: u64) -> (r: u64)
    ensures
        r == add_of(a, b),
{
    Float::to_bits((Double::from_bits(a as u128) + Double::from_bits(b as u128)).value) as u64
}

/// Relies on `rustc_apfloat`: `Double` subtraction rounds to nearest even,
/// as the hardware operation does.
#[verifier::external_body]
pub(crate) fn sub_bits(a: u64, b: u64) -> (r: u64)
    ensures
        r == sub_of(a, b),
{
    Float::to_bits((Double::from_bits(a as u128) - Double::from_bits(b as u128)).value) as u64
}

/// Relies on `rustc_apfloat`: `Double` multiplication rounds to nearest
/// even, as the hardware operation does.
#[verifier::external_body]
pub(crate) fn mul_bits(a: u64, b: u64) -> (r: u64)
    ensures
        r == mul_of(a, b),
{
    Float::to_bits((Double::from_bits(a as u128) * Double::from_bits(b as u128)).value) as u64
}

/// Relies on `rustc_apfloat`: `Double` division rounds to nearest even, as
/// the hardware operation does.  Its source states the quoted special cases:
/// zero over zero (and any NaN operand) is NaN, and a finite nonzero value
/// over zero is the infinity whose sign is the exclusive or of the operand
/// signs.
#[verifier::external_body]
pub(crate) fn div_bits(a: u64, b: u64) -> (r: u64)
    ensures
        r == div_of(a, b),
        is_zero_bits(b) && is_zero_bits(a) ==> is_nan_bits(r),
        is_nan_bits(a) || is_nan_bits(b) ==> is_nan_bits(r),
        is_zero_bits(b) && is_finite_bits(a) && !is_zero_bits(a) && !is_nan_bits(a) ==> is_inf_bits(r) && (sign_bit(r)
            == (sign_bit(a) != sign_bit(b))),
{
    Float::to_bits((Double::from_bits(a as u128) / Double::from_bits(b as u128)).value) as u64
}

/// Relies on `rustc_apfloat`: `c_fmod` computes the remainder with the
/// semantics of C `fmod`, which is what `%` computes on 64-bit values.
#[verifier::external_body]
pub(crate) fn fmod_bits(a: u64, b: u64) -> (r: u64)
    ensures
        r == fmod_of(a, b),
{
    Float::to_bits(Double::from_bits(a as u128).c_fmod(Double::from_bits(b as u128)).value) as u64
}

/// Relies on `rustc_apfloat`: `Double::from_str` parses decimal text with
/// correct rounding to nearest and returns an error rather than panicking
/// on text it does not accept.  On the texts the tokenizer hands over —
/// runs of digits and dots led by a digit — it accepts exactly those with
/// at most one dot, as the standard library's parsing does, and rounds to
/// the same value.
#[verifier::external_body]
pub(crate) fn parse_double(s: &str) -> (r: Option<u64>)
    ensures
        r == double_of_decimal(s@),
{
    match <Double as core::str::FromStr>::from_str(s) {
        Ok(d) => Some(Float::to_bits(d) as u64),
        Err(_) => None,
    }
}

} // verus!
