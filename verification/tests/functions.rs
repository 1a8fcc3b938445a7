//! Tests of the function library: the factorial, the classified arithmetic,
//! and the parameter extraction.
use clmath::functions::absolute;
use clmath::functions::addition;
use clmath::functions::division;
use clmath::functions::factorial;
use clmath::functions::greater_than;
use clmath::functions::less_than;
use clmath::functions::maximum;
use clmath::functions::minimum;
use clmath::functions::modulo;
use clmath::functions::modulo_euclid;
use clmath::functions::multiplication;
use clmath::functions::subtraction;
use clmath::functions::FunctionReturnType;
use clmath::error::FunctionErrorType;

fn bits(x: f64) -> u64 {
    x.to_bits()
}

fn as_f64(v: FunctionReturnType) -> f64 {
    f64::from_bits(v.get_f64().unwrap())
}

#[test]
fn test_factorial() {
    assert_eq!(factorial(0).unwrap().get_u32().unwrap(), 1);
    assert_eq!(factorial(5).unwrap().get_u32().unwrap(), 120);
    let err = factorial(500).unwrap_err();
    assert_eq!(err.error, "The factorial of this number (500) is too large to fit into the maximum range of a 32bit unsigned integer (4.294967295e9).".to_string());
}

#[test]
fn test_addition() {
    assert_eq!(as_f64(addition(bits(5.0), bits(5.0)).unwrap()), 10.0);
    assert_eq!(as_f64(addition(bits(-5.0), bits(5.0)).unwrap()), 0.0);
    assert_eq!(as_f64(addition(bits(-5.0), bits(-5.0)).unwrap()), -10.0);

    let err = addition(bits(f64::MIN), bits(f64::MIN + 1.0)).unwrap_err();
    assert_eq!(err.error, format!("The addition of {:e} and {:e} results in an underflow of the 64bit floating point range ({:e}) and can only be displayed as {}.", f64::MIN, f64::MIN + 1.0, f64::MIN, f64::NEG_INFINITY));

    let err = addition(bits(f64::MAX), bits(f64::MAX - 1.0)).unwrap_err();
    assert_eq!(err.error, format!("The addition of {:e} and {:e} results in an overflow of the 64bit floating point range ({:e}) and can only be displayed as {}.", f64::MAX, f64::MAX - 1.0, f64::MAX, f64::INFINITY));
}

#[test]
fn test_subtraction_and_multiplication_overflow() {
    assert_eq!(as_f64(subtraction(bits(8.5), bits(1.25)).unwrap()), 7.25);
    let err = subtraction(bits(f64::MIN), bits(f64::MAX)).unwrap_err();
    assert!(matches!(err.error_type, FunctionErrorType::UnderflowInf));

    assert_eq!(as_f64(multiplication(bits(6.0), bits(7.0)).unwrap()), 42.0);
    let err = multiplication(bits(1.0e300), bits(1.0e300)).unwrap_err();
    assert!(matches!(err.error_type, FunctionErrorType::OverflowInf));
    let err = multiplication(bits(-1.0e300), bits(1.0e300)).unwrap_err();
    assert!(matches!(err.error_type, FunctionErrorType::UnderflowInf));
}

#[test]
fn test_division_by_zero() {
    // A zero dividend over zero has no value at all.
    let err = division(bits(0.0), bits(0.0)).unwrap_err();
    assert!(matches!(err.error_type, FunctionErrorType::DivisionByZero));
    assert_eq!(
        err.error,
        "You cannot divide by zero. You tried to divide 0e0 by 0 which has no result.".to_string()
    );

    // A nonzero dividend over zero runs out of the range instead.
    let err = division(bits(5.0), bits(0.0)).unwrap_err();
    assert!(matches!(err.error_type, FunctionErrorType::OverflowInf));
    let err = division(bits(-5.0), bits(0.0)).unwrap_err();
    assert!(matches!(err.error_type, FunctionErrorType::UnderflowInf));

    // Ordinary quotients come back as computed.
    assert_eq!(as_f64(division(bits(7.0), bits(2.0)).unwrap()), 3.5);

    // The overflow message renders in-range operands in plain decimal.
    let err = division(bits(6.5), bits(0.0)).unwrap_err();
    assert_eq!(err.error, "The division of 6.5 and 0e0 results in an overflow of the 64bit floating point range (1.7976931348623157e308) and can only be displayed as inf.".to_string());
}

#[test]
fn test_comparisons_and_min_max_abs() {
    assert_eq!(less_than(bits(3.0), bits(4.0)), FunctionReturnType::Bool(true));
    assert_eq!(less_than(bits(4.0), bits(3.0)), FunctionReturnType::Bool(false));
    assert_eq!(greater_than(bits(4.0), bits(3.0)), FunctionReturnType::Bool(true));

    assert_eq!(as_f64(minimum(bits(3.0), bits(7.0))), 3.0);
    assert_eq!(as_f64(maximum(bits(3.0), bits(7.0))), 7.0);
    assert_eq!(as_f64(minimum(bits(-3.0), bits(-7.0))), -7.0);
    assert_eq!(as_f64(absolute(bits(-5.5))), 5.5);
    assert_eq!(as_f64(absolute(bits(5.5))), 5.5);
}

#[test]
fn test_modulo_and_euclidean_modulo() {
    assert_eq!(as_f64(modulo(bits(7.0), bits(3.0))), 7.0 % 3.0);
    assert_eq!(as_f64(modulo(bits(-7.0), bits(3.0))), -7.0 % 3.0);
    assert_eq!(as_f64(modulo_euclid(bits(7.0), bits(3.0))), 7.0f64.rem_euclid(3.0));
    assert_eq!(as_f64(modulo_euclid(bits(-7.0), bits(3.0))), (-7.0f64).rem_euclid(3.0));
    assert_eq!(as_f64(modulo_euclid(bits(-7.0), bits(3.0))), 2.0);
}

#[test]
fn test_parameter_extraction_errors() {
    let err = FunctionReturnType::Bool(true).get_f64().unwrap_err();
    assert_eq!(err.error, "Expected a f64 as a parameter but got a boolean true".to_string());
    let err = FunctionReturnType::U32(9).get_f64().unwrap_err();
    assert_eq!(err.error, "Expected a f64 as a parameter but got a u32 9".to_string());
    let err = FunctionReturnType::Str("oops".to_string()).get_f64().unwrap_err();
    assert_eq!(err.error, "Expected a f64 as a parameter but got a string \"oops\"".to_string());

    assert_eq!(FunctionReturnType::F64(bits(4.0)).get_u32().unwrap(), 4);
    assert_eq!(FunctionReturnType::F64(bits(-0.0)).get_u32().unwrap(), 0);
    let err = FunctionReturnType::F64(bits(4.5)).get_u32().unwrap_err();
    assert_eq!(err.error, "Expected a u32 as a parameter but got a f64 4.5".to_string());
    assert_eq!(FunctionReturnType::F64(bits(1.0e20)).get_u32().unwrap(), u32::MAX);
}

#[test]
fn test_bit_level_model_matches_native_semantics() {
    let samples: [f64; 12] = [
        0.0, -0.0, 1.0, -1.0, 0.5, 6.1, -6.1, 1.0e300, -1.0e300, f64::MAX, f64::MIN, 4.25,
    ];
    for &a in samples.iter() {
        assert_eq!(clmath::double::double_is_nan(a.to_bits()), a.is_nan());
        assert_eq!(clmath::double::double_is_infinite(a.to_bits()), a.is_infinite());
        assert_eq!(clmath::double::double_is_sign_negative(a.to_bits()), a.is_sign_negative());
        assert_eq!(clmath::double::double_is_integral(a.to_bits()), a.fract() == 0.0);
        assert_eq!(clmath::double::double_to_u32(a.to_bits()), a as u32);
        assert_eq!(f64::from_bits(clmath::double::double_abs(a.to_bits())), a.abs());
        for &b in samples.iter() {
            assert_eq!(clmath::double::double_less_than(a.to_bits(), b.to_bits()), a < b);
            assert_eq!(clmath::double::double_less_equal(a.to_bits(), b.to_bits()), a <= b);
            assert_eq!(f64::from_bits(clmath::double::double_min(a.to_bits(), b.to_bits())), a.min(b));
            assert_eq!(f64::from_bits(clmath::double::double_max(a.to_bits(), b.to_bits())), a.max(b));
        }
    }
    let nan = f64::NAN;
    assert!(clmath::double::double_is_nan(nan.to_bits()));
    assert!(!clmath::double::double_is_integral(nan.to_bits()));
    assert_eq!(clmath::double::double_to_u32(nan.to_bits()), nan as u32);
    for &n in [0u32, 1, 2, 5, 500, 65536, u32::MAX].iter() {
        assert_eq!(f64::from_bits(clmath::double::u32_to_double(n)), n as f64);
    }
}
