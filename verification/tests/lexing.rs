//! Tests of the tokenizer: classification, implicit multiplication, and
//! batch error collection.
use clmath::error::CLMathError;
use clmath::error::TokenizerErrorType;
use clmath::functions::ElementaryFunc;
use clmath::functions::Func;
use clmath::functions::HigherOrderFunc;
use clmath::tokenizer::tokenize;
use clmath::tokenizer::Symbol;
use clmath::tokenizer::Token;
use clmath::tokenizer::Variable;

fn num(x: f64) -> Token {
    Token::Number(x.to_bits())
}

fn var(name: &str) -> Token {
    Token::Variable(Variable::new(name.to_string(), None))
}

fn mult() -> Token {
    Token::Function(Func::Elementary(ElementaryFunc::Multiplication))
}

#[test]
fn test_juxtaposed_operands() {
    // Every juxtaposed pair gets an implicit multiplication; the comma is a
    // symbol of its own and takes part in none.
    let tokens = tokenize("76var1a6,1b5.01".to_string()).unwrap();
    let expected = vec![
        num(76.0),
        mult(),
        var("var"),
        mult(),
        num(1.0),
        mult(),
        var("a"),
        mult(),
        num(6.0),
        Token::Symbol(Symbol::Comma),
        num(1.0),
        mult(),
        var("b"),
        mult(),
        num(5.01),
    ];
    assert_eq!(tokens, expected);
}

#[test]
fn test_multiplications_flank_brackets() {
    let tokens = tokenize("5(3+4a)5".to_string()).unwrap();
    let expected = vec![
        num(5.0),
        mult(),
        Token::Symbol(Symbol::OpeningBracket),
        num(3.0),
        Token::Function(Func::Elementary(ElementaryFunc::Addition)),
        num(4.0),
        mult(),
        var("a"),
        Token::Symbol(Symbol::ClosingBracket),
        mult(),
        num(5.0),
    ];
    assert_eq!(tokens, expected);
}

#[test]
fn test_unrecognized_character() {
    let errors = tokenize("var$".to_string()).unwrap_err();
    assert_eq!(errors.len(), 2);
    match &errors[0] {
        CLMathError::Tokenizer(e) => {
            assert!(matches!(e.error_type, TokenizerErrorType::UnrecognizedInput));
            assert_eq!(e.error, "Input 'var$' was not recognized. '$' is not a valid symbol.".to_string());
            assert_eq!(e.token_start_idx, 3);
            assert_eq!(e.curr_idx, 3);
        },
        _ => panic!("a tokenizer error was expected"),
    }
    match &errors[1] {
        CLMathError::Tokenizer(e) => {
            assert!(matches!(e.error_type, TokenizerErrorType::EmptyToken));
            assert_eq!(e.error, "Tried to tokenize an empty token.".to_string());
        },
        _ => panic!("a tokenizer error was expected"),
    }
}

#[test]
fn test_invalid_number_literal() {
    let errors = tokenize("1.2.3".to_string()).unwrap_err();
    assert_eq!(errors.len(), 1);
    match &errors[0] {
        CLMathError::Tokenizer(e) => {
            assert!(matches!(e.error_type, TokenizerErrorType::InvalidNumber));
            assert_eq!(e.error, "'1.2.3' is an invalid number, because:\n invalid float literal".to_string());
            assert_eq!(e.token_start_idx, 0);
            assert_eq!(e.curr_idx, 4);
        },
        _ => panic!("a tokenizer error was expected"),
    }
}

#[test]
fn test_invalid_function_name() {
    let errors = tokenize("Foo(3)".to_string()).unwrap_err();
    assert_eq!(errors.len(), 1);
    match &errors[0] {
        CLMathError::Tokenizer(e) => {
            assert!(matches!(e.error_type, TokenizerErrorType::InvalidFunctionName));
            assert_eq!(e.error, "'Foo' is an invalid function name.".to_string());
        },
        _ => panic!("a tokenizer error was expected"),
    }
}

#[test]
fn test_keywords_and_whitespace() {
    let tokens = tokenize("  Min( 3 , 7 )  ".to_string()).unwrap();
    let expected = vec![
        Token::Function(Func::HigherOrder(HigherOrderFunc::Minimum(2))),
        Token::Symbol(Symbol::OpeningBracket),
        num(3.0),
        Token::Symbol(Symbol::Comma),
        num(7.0),
        Token::Symbol(Symbol::ClosingBracket),
    ];
    assert_eq!(tokens, expected);

    let tokens = tokenize("1 < 2 > 3 % 4 - 5 / 6".to_string()).unwrap();
    assert_eq!(tokens.len(), 11);
    assert_eq!(tokens[1], Token::Function(Func::Elementary(ElementaryFunc::LessThan)));
    assert_eq!(tokens[3], Token::Function(Func::Elementary(ElementaryFunc::GreaterThan)));
    assert_eq!(tokens[5], Token::Function(Func::Elementary(ElementaryFunc::Modulo)));
    assert_eq!(tokens[7], Token::Function(Func::Elementary(ElementaryFunc::Subtraction)));
    assert_eq!(tokens[9], Token::Function(Func::Elementary(ElementaryFunc::Division)));
}

#[test]
fn test_empty_input_yields_no_tokens() {
    let tokens = tokenize(String::new()).unwrap();
    assert!(tokens.is_empty());
}

#[test]
fn test_number_parsing_matches_native_parsing() {
    for text in ["76", "6.1", "5.01", "0.00001", "10000.0", "5.", "000.5", "12345678901234567890"] {
        let tokens = tokenize(text.to_string()).unwrap();
        assert_eq!(tokens, vec![num(text.parse::<f64>().unwrap())], "for literal {}", text);
    }
}
