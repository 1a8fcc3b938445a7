//! Tests of the parser, the executor, the error rendering, and the
//! round trip through the serializer.
use clmath::error::CLMathError;
use clmath::error::FunctionErrorType;
use clmath::error::ParserError;
use clmath::error::handle_error;
use clmath::error::handle_errors;
use clmath::error::IoError;
use clmath::error::TokenizerError;
use clmath::error::TokenizerErrorType;
use clmath::executor::execute;
use clmath::functions::ElementaryFunc;
use clmath::functions::FunctionReturnType;
use clmath::functions::elementary_func_for;
use clmath::functions::higher_order_func_for;
use clmath::functions::HigherOrderFunc;
use clmath::parser::BracketedExpression;
use clmath::parser::ClosingBracket;
use clmath::parser::ElementaryFunction;
use clmath::parser::Expression;
use clmath::parser::Function;
use clmath::parser::MathExpression;
use clmath::parser::OpeningBracket;
use clmath::parser::Parser;
use clmath::parser::Start;
use clmath::serializer::serialize;
use clmath::tokenizer::tokenize;
use clmath::tokenizer::Variable;

fn evaluate(line: &str) -> Result<Option<FunctionReturnType>, Vec<CLMathError>> {
    let tokens = tokenize(line.to_string())?;
    let start = Parser::parse(tokens).map_err(|e| vec![e])?;
    execute(start).map_err(|e| vec![e])
}

fn expect_f64(line: &str, value: f64) {
    match evaluate(line).unwrap().unwrap() {
        FunctionReturnType::F64(bits) => assert_eq!(f64::from_bits(bits), value, "for {}", line),
        other => panic!("a 64-bit value was expected for {}, got {:?}", line, other),
    }
}

fn num_expr(x: f64) -> Expression {
    Expression::MathExpression(Box::new(MathExpression::Number(x.to_bits())))
}

fn var_expr(name: &str) -> Expression {
    Expression::MathExpression(Box::new(MathExpression::Variable(Variable::new(name.to_string(), None))))
}

fn elem(lhs: Expression, op: ElementaryFunc, rhs: Expression) -> Expression {
    Expression::MathExpression(Box::new(MathExpression::Function(Function::ElementaryFunction(
        ElementaryFunction { expression_lhs: lhs, function: op, expression_rhs: rhs },
    ))))
}

fn bracketed(inner: Expression) -> Expression {
    Expression::BracketedExpression(Box::new(BracketedExpression {
        opening_bracket: OpeningBracket,
        expression: inner,
        closing_bracket: ClosingBracket,
    }))
}

#[test]
fn test_end_to_end_evaluation() {
    expect_f64("5 + 6", 11.0);
    expect_f64("Min(3,7)", 3.0);
    expect_f64("Max(3,7)", 7.0);
    expect_f64("Abs(5)", 5.0);
    expect_f64("EMod(7,3)", 1.0);
    expect_f64("7 % 3", 1.0);
    expect_f64("5(3+4)5", 175.0);
    expect_f64("2 + 3 * 4", 20.0);
    expect_f64("(5)", 5.0);

    match evaluate("Fac(5)").unwrap().unwrap() {
        FunctionReturnType::U32(n) => assert_eq!(n, 120),
        other => panic!("a 32-bit value was expected, got {:?}", other),
    }
    match evaluate("3 < 7").unwrap().unwrap() {
        FunctionReturnType::Bool(b) => assert!(b),
        other => panic!("a boolean was expected, got {:?}", other),
    }
    match evaluate("a").unwrap().unwrap() {
        FunctionReturnType::Str(s) => assert_eq!(s, "a".to_string()),
        other => panic!("a variable name was expected, got {:?}", other),
    }
    assert!(evaluate("").unwrap().is_none());
}

#[test]
fn test_parsed_tree_shape() {
    // The bracketed chain groups left to right, and the deferred left-hand
    // sides give the quoted shape.
    let tokens = tokenize("5(3+4a)5".to_string()).unwrap();
    let start = Parser::parse(tokens).unwrap();
    let inner = elem(
        elem(num_expr(3.0), ElementaryFunc::Addition, num_expr(4.0)),
        ElementaryFunc::Multiplication,
        var_expr("a"),
    );
    let expected = Start::Expression(elem(
        num_expr(5.0),
        ElementaryFunc::Multiplication,
        elem(bracketed(inner), ElementaryFunc::Multiplication, num_expr(5.0)),
    ));
    assert_eq!(start, expected);
}

#[test]
fn test_parser_errors() {
    fn parse_err(line: &str) -> ParserError {
        let tokens = tokenize(line.to_string()).unwrap();
        match Parser::parse(tokens).unwrap_err() {
            CLMathError::Parser(p) => p,
            other => panic!("a parser error was expected, got {:?}", other),
        }
    }
    assert_eq!(parse_err("5,6"), ParserError::ExpectedElementaryFunction);
    assert_eq!(parse_err("+5"), ParserError::NoLhsExpressionProvided);
    assert_eq!(parse_err("Min(3)"), ParserError::ExpectedComma);
    assert_eq!(parse_err("(5"), ParserError::ExpectedClosingBracket);
    assert_eq!(parse_err("Fac 5"), ParserError::ExpectedOpeningBracket);
    assert_eq!(parse_err("5+"), ParserError::ExpressionEmpty);
    assert_eq!(parse_err("()"), ParserError::ExpectedMathExpression);
    // The non-returning flag is raised again by the nested right-hand-side
    // parse, so a bracketed parameter demands an operator after it.
    assert_eq!(parse_err("Abs((0-5))"), ParserError::ExpectedElementaryFunction);
}

#[test]
fn test_functional_errors_end_to_end() {
    let errs = evaluate("Fac(500)").unwrap_err();
    match &errs[0] {
        CLMathError::Function(f) => {
            assert!(matches!(f.error_type, FunctionErrorType::FactorialError));
            assert!(f.error.contains("(500)"));
            assert!(f.error.contains("4.294967295e9"));
        },
        other => panic!("a function error was expected, got {:?}", other),
    }
    let errs = evaluate("5 + a").unwrap_err();
    match &errs[0] {
        CLMathError::Function(f) => {
            assert!(matches!(f.error_type, FunctionErrorType::InvalidParameterType));
            assert_eq!(f.error, "Expected a f64 as a parameter but got a string \"a\"".to_string());
        },
        other => panic!("a function error was expected, got {:?}", other),
    }
    let errs = evaluate("0 / 0").unwrap_err();
    match &errs[0] {
        CLMathError::Function(f) => {
            assert!(matches!(f.error_type, FunctionErrorType::DivisionByZero));
        },
        other => panic!("a function error was expected, got {:?}", other),
    }
}

#[test]
fn test_round_trip_through_serializer() {
    for line in [
        "5 + 6",
        "5(3+4a)5",
        "Min(3,7)",
        "(5)",
        "Fac(5)",
        "2 + 3 * 4.5",
        "EMod(7,3) < Abs(2)",
        "0.00001 + 6.1",
        "123456789012345678901234567890 * 2",
    ] {
        let tokens = tokenize(line.to_string()).unwrap();
        let start = Parser::parse(tokens).unwrap();
        let tree = match start {
            Start::Expression(e) => e,
            Start::Empty => panic!("an expression was expected for {}", line),
        };
        let text = serialize(&tree);
        let tokens2 = tokenize(text.clone()).unwrap();
        let start2 = Parser::parse(tokens2).unwrap();
        assert_eq!(start2, Start::Expression(tree), "round trip failed for {} via {}", line, text);
    }
}

#[test]
fn test_error_rendering() {
    let text = handle_error(CLMathError::Parser(ParserError::ExpectedComma));
    assert_eq!(
        text,
        "An error occured while trying to evaluate the input: ExpectedComma\nA comma was expected but not found."
            .to_string(),
    );

    let text = handle_error(CLMathError::Tokenizer(TokenizerError::new(
        "'$' is an invalid symbol.".to_string(),
        TokenizerErrorType::InvalidSymbol,
        3,
        4,
    )));
    assert_eq!(
        text,
        "An error occurred while trying evaluate the input: InvalidSymbol, Start: 3, End: 4\n'$' is an invalid symbol."
            .to_string(),
    );

    let text = handle_error(CLMathError::Io(IoError::InvalidUTF8("bad bytes".to_string())));
    assert_eq!(text, "An error occured while trying to read the input: InvalidUTF8\nbad bytes".to_string());

    let texts = handle_errors(vec![
        CLMathError::Parser(ParserError::ExpressionEmpty),
        CLMathError::Parser(ParserError::ExpectedOpeningBracket),
    ]);
    assert_eq!(texts.len(), 2);
    assert!(texts[0].contains("ExpressionEmpty"));
    assert!(texts[1].contains("ExpectedOpeningBracket"));
}

#[test]
fn test_overflow_never_returns_infinity() {
    // A result out of the range is always classified, never a raw infinity.
    let line = format!("1{} * 100", "0".repeat(308));
    let errs = evaluate(&line).unwrap_err();
    match &errs[0] {
        CLMathError::Function(f) => {
            assert!(matches!(f.error_type, FunctionErrorType::OverflowInf));
        },
        other => panic!("a function error was expected, got {:?}", other),
    }
}

#[test]
fn test_serializer_text() {
    fn reserialized(line: &str) -> String {
        let tokens = tokenize(line.to_string()).unwrap();
        match Parser::parse(tokens).unwrap() {
            Start::Expression(e) => serialize(&e),
            Start::Empty => panic!("an expression was expected for {}", line),
        }
    }
    assert_eq!(reserialized("5 + 6"), "5 + 6".to_string());
    assert_eq!(reserialized("Min(3,7)"), "Min(3,7)".to_string());
    assert_eq!(reserialized("(4.5)"), "(4.5)".to_string());
    assert_eq!(reserialized("6a"), "6 * a".to_string());
    assert_eq!(reserialized("Fac(5)"), "Fac(5)".to_string());
}

#[test]
fn test_keyword_tables() {
    assert_eq!(elementary_func_for('+'), Some(ElementaryFunc::Addition));
    assert_eq!(elementary_func_for('%'), Some(ElementaryFunc::Modulo));
    assert_eq!(elementary_func_for('x'), None);
    assert_eq!(higher_order_func_for("Fac"), Some(HigherOrderFunc::Factorial(1)));
    assert_eq!(higher_order_func_for("EMod"), Some(HigherOrderFunc::EucleadianModulo(2)));
    assert_eq!(higher_order_func_for("Min"), Some(HigherOrderFunc::Minimum(2)));
    assert_eq!(higher_order_func_for("Max"), Some(HigherOrderFunc::Maximum(2)));
    assert_eq!(higher_order_func_for("Abs"), Some(HigherOrderFunc::Absolute(1)));
    assert_eq!(higher_order_func_for("min"), None);
    let count = HigherOrderFunc::Minimum(2);
    assert_eq!(*count.get_param_count(), 2);
}

#[test]
fn test_batch_error_reporting() {
    // Every lexical fault of the line is collected in one pass.
    let errs = tokenize("1.2.3 $ Foo(".to_string()).unwrap_err();
    let texts = handle_errors(errs);
    assert_eq!(texts.len(), 4);
    assert!(texts[0].contains("InvalidNumber"));
    assert!(texts[1].contains("UnrecognizedInput"));
    assert!(texts[2].contains("EmptyToken"));
    assert!(texts[3].contains("InvalidFunctionName"));
}
