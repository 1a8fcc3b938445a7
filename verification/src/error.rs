//! The error taxonomy of the evaluator, and the rendering of each error as
//! the text that the surrounding read-eval loop prints.
use vstd::prelude::*;

use crate::decimal::dec_rep;
use crate::decimal::usize_string;

verus! {

#[derive(Debug, PartialEq)]
pub enum CLMathError {
    Io(IoError),
    Tokenizer(TokenizerError),
    Parser(ParserError),
    Function(FunctionError),
}

#[derive(Debug, PartialEq)]
pub enum IoError {
    InvalidUTF8(String),
}

#[derive(Debug, Clone, Copy, PartialEq, Eq, Structural)]
pub enum TokenizerErrorType {
    UnrecognizedInput,
    InvalidFunctionName,
    InvalidSymbol,
    InvalidNumber,
    EmptyToken,
}

#[derive(Debug, PartialEq)]
pub struct TokenizerError {
    pub error: String,
    pub error_type: TokenizerErrorType,
    pub token_start_idx: usize,
    pub curr_idx: usize,
}

impl TokenizerError {
    pub fn new(error: String, error_type: TokenizerErrorType, token_start_idx: usize, curr_idx: usize) -> (r: Self)
        ensures
            r.error == error,
            r.error_type == error_type,
            r.token_start_idx == token_start_idx,
            r.curr_idx == curr_idx,
    {
        Self { error, error_type, token_start_idx, curr_idx }
    }
}

#[derive(Debug, Clone, Copy, PartialEq, Eq, Structural)]
pub enum ParserError {
    ExpectedMathExpression,
    ExpressionEmpty,
    ExpectedElementaryFunction,
    ExpectedOpeningBracket,
    ExpectedClosingBracket,
    ExpectedComma,
    NoLhsExpressionProvided,
}

#[derive(Debug, Clone, Copy, PartialEq, Eq, Structural)]
pub enum FunctionErrorType {
    FactorialError,
    DivisionByZero,
    OverflowInf,
    UnderflowInf,
    InvalidParameterType,
}

#[derive(Debug, PartialEq)]
pub struct FunctionError {
    pub error: String,
    pub error_type: FunctionErrorType,
}

impl FunctionError {
    pub fn new(error: String, error_type: FunctionErrorType) -> (r: Self)
        ensures
            r.error == error,
            r.error_type == error_type,
    {
        Self { error, error_type }
    }
}

/// The name under which a tokenizer error kind is reported.
pub open spec fn tokenizer_error_type_name(t: TokenizerErrorType) -> Seq<char> {
    match t {
        TokenizerErrorType::UnrecognizedInput => "UnrecognizedInput"@,
        TokenizerErrorType::InvalidFunctionName => "InvalidFunctionName"@,
        TokenizerErrorType::InvalidSymbol => "InvalidSymbol"@,
        TokenizerErrorType::InvalidNumber => "InvalidNumber"@,
        TokenizerErrorType::EmptyToken => "EmptyToken"@,
    }
}

fn tokenizer_error_type_string(t: &TokenizerErrorType) -> (r: String)
    ensures
        r@ == tokenizer_error_type_name(*t),
{
    match t {
        TokenizerErrorType::UnrecognizedInput => String::from_str("UnrecognizedInput"),
        TokenizerErrorType::InvalidFunctionName => String::from_str("InvalidFunctionName"),
        TokenizerErrorType::InvalidSymbol => String::from_str("InvalidSymbol"),
        TokenizerErrorType::InvalidNumber => String::from_str("InvalidNumber"),
        TokenizerErrorType::EmptyToken => String::from_str("EmptyToken"),
    }
}

/// The name under which a function error kind is reported.
pub open spec fn function_error_type_name(t: FunctionErrorType) -> Seq<char> {
    match t {
        FunctionErrorType::FactorialError => "FactorialError"@,
        FunctionErrorType::DivisionByZero => "DivisionByZero"@,
        FunctionErrorType::OverflowInf => "OverflowInf"@,
        FunctionErrorType::UnderflowInf => "UnderflowInf"@,
        FunctionErrorType::InvalidParameterType => "InvalidParameterType"@,
    }
}

fn function_error_type_string(t: &FunctionErrorType) -> (r: String)
    ensures
        r@ == function_error_type_name(*t),
{
    match t {
        FunctionErrorType::FactorialError => String::from_str("FactorialError"),
        FunctionErrorType::DivisionByZero => String::from_str("DivisionByZero"),
        FunctionErrorType::OverflowInf => String::from_str("OverflowInf"),
        FunctionErrorType::UnderflowInf => String::from_str("UnderflowInf"),
        FunctionErrorType::InvalidParameterType => String::from_str("InvalidParameterType"),
    }
}

/// The full text reported for a parser error.
pub open spec fn parser_error_text(e: ParserError) -> Seq<char> {
    match e {
        ParserError::ExpectedClosingBracket => "An error occured while trying to evaluate the input: ExpectedClosingBracket\nA closing bracket was expected but not found."@,
        ParserError::ExpectedMathExpression => "An error occured while trying to evaluate the input: ExpectedMathExpression\nA math expression was expected but not found."@,
        ParserError::ExpressionEmpty => "An error occured while trying to evaluate the input: ExpressionEmpty\nThe expression was empty."@,
        ParserError::ExpectedOpeningBracket => "An error occured while trying to evaluate the input: ExpectedOpeningBracket\nAn opening bracket was expected but not found."@,
        ParserError::ExpectedComma => "An error occured while trying to evaluate the input: ExpectedComma\nA comma was expected but not found."@,
        ParserError::NoLhsExpressionProvided => "An error occured while trying to evaluate the input: NoLhsExpressionProvided\nNo left hand side expression for an elementary function was found."@,
        ParserError::ExpectedElementaryFunction => "An error occured while trying to evaluate the input: ExpectedElementaryFunction\nAn elementary function was expected but not found."@,
    }
}

fn parser_error_string(e: &ParserError) -> (r: String)
    ensures
        r@ == parser_error_text(*e),
{
    match e {
        ParserError::ExpectedClosingBracket => String::from_str("An error occured while trying to evaluate the input: ExpectedClosingBracket\nA closing bracket was expected but not found."),
        ParserError::ExpectedMathExpression => String::from_str("An error occured while trying to evaluate the input: ExpectedMathExpression\nA math expression was expected but not found."),
        ParserError::ExpressionEmpty => String::from_str("An error occured while trying to evaluate the input: ExpressionEmpty\nThe expression was empty."),
        ParserError::ExpectedOpeningBracket => String::from_str("An error occured while trying to evaluate the input: ExpectedOpeningBracket\nAn opening bracket was expected but not found."),
        ParserError::ExpectedComma => String::from_str("An error occured while trying to evaluate the input: ExpectedComma\nA comma was expected but not found."),
        ParserError::NoLhsExpressionProvided => String::from_str("An error occured while trying to evaluate the input: NoLhsExpressionProvided\nNo left hand side expression for an elementary function was found."),
        ParserError::ExpectedElementaryFunction => String::from_str("An error occured while trying to evaluate the input: ExpectedElementaryFunction\nAn elementary function was expected but not found."),
    }
}

/// The full text reported for a tokenizer error.
pub open spec fn tokenizer_error_text(e: TokenizerError) -> Seq<char> {
    "An error occurred while trying evaluate the input: "@ + tokenizer_error_type_name(e.error_type) + ", Start: "@
        + dec_rep(e.token_start_idx as nat) + ", End: "@ + dec_rep(e.curr_idx as nat) + "\n"@ + e.error@
}

/// The full text reported for a function error.
pub open spec fn function_error_text(e: FunctionError) -> Seq<char> {
    "An error occurred while trying run the input: "@ + function_error_type_name(e.error_type) + "\n"@ + e.error@
}

/// The full text reported for an input-reading error.
pub open spec fn io_error_text(e: IoError) -> Seq<char> {
    match e {
        IoError::InvalidUTF8(s) => "An error occured while trying to read the input: InvalidUTF8\n"@ + s@,
    }
}

/// The full text reported for an error of any stage.
pub open spec fn error_text(e: CLMathError) -> Seq<char> {
    match e {
        CLMathError::Io(inner) => io_error_text(inner),
        CLMathError::Tokenizer(inner) => tokenizer_error_text(inner),
        CLMathError::Parser(inner) => parser_error_text(inner),
        CLMathError::Function(inner) => function_error_text(inner),
    }
}

/// Renders one error as the text that the read-eval loop prints for it.
pub fn handle_error(error: CLMathError) -> (r: String)
    ensures
        r@ == error_text(error),
{
    match error {
        CLMathError::Io(inner) => match inner {
            IoError::InvalidUTF8(s) => {
                let r = String::from_str("An error occured while trying to read the input: InvalidUTF8\n").concat(
                    s.as_str(),
                );
                proof {
                    assert(r@ =~= error_text(CLMathError::Io(IoError::InvalidUTF8(s))));
                }
                r
            },
        },
        CLMathError::Tokenizer(inner) => {
            let r = String::from_str("An error occurred while trying evaluate the input: ").concat(
                tokenizer_error_type_string(&inner.error_type).as_str(),
            ).concat(", Start: ").concat(usize_string(inner.token_start_idx).as_str()).concat(", End: ").concat(
                usize_string(inner.curr_idx).as_str(),
            ).concat("\n").concat(inner.error.as_str());
            proof {
                assert(r@ =~= tokenizer_error_text(inner));
            }
            r
        },
        CLMathError::Parser(inner) => parser_error_string(&inner),
        CLMathError::Function(inner) => {
            let r = String::from_str("An error occurred while trying run the input: ").concat(
                function_error_type_string(&inner.error_type).as_str(),
            ).concat("\n").concat(inner.error.as_str());
            proof {
                assert(r@ =~= function_error_text(inner));
            }
            r
        },
    }
}

/// Renders a batch of errors, in order, as the texts that the read-eval loop
/// prints for them.
pub fn handle_errors(errors: Vec<CLMathError>) -> (r: Vec<String>)
    ensures
        r@.len() == errors@.len(),
        forall|i: int| 0 <= i < errors@.len() ==> r@[i]@ == error_text(errors@[i]),
{
    let ghost all = errors@;
    let mut rest = errors;
    let mut out: Vec<String> = Vec::new();
    while rest.len() > 0
        invariant
            out@.len() + rest@.len() == all.len(),
            rest@ == all.subrange(out@.len() as int, all.len() as int),
            forall|i: int| 0 <= i < out@.len() ==> out@[i]@ == error_text(all[i]),
        decreases rest@.len(),
    {
        let e = rest.remove(0);
        out.push(handle_error(e));
        proof {
            assert(rest@ =~= all.subrange(out@.len() as int, all.len() as int));
        }
    }
    out
}

} // verus!
