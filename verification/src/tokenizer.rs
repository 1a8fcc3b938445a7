//! The tokenizer: one left-to-right scan over the input line, classifying
//! runs of characters by their first character, collecting every lexical
//! error, and inserting implicit multiplication tokens between juxtaposed
//! operands.
use vstd::prelude::*;

use crate::double::double_of_decimal;
use crate::double::parse_double;
use crate::error::CLMathError;
use crate::error::TokenizerError;
use crate::error::TokenizerErrorType;
use crate::functions::elementary_func_of_char;
use crate::functions::elementary_func_for;
use crate::functions::higher_order_func_of_name;
use crate::functions::higher_order_func_for;
use crate::functions::ElementaryFunc;
use crate::functions::Func;

verus! {

/// A named operand; the tokenizer leaves every variable unbound, carrying
/// the value of a bound one as an encoded 64-bit IEEE-754 value.
#[derive(Debug, PartialEq, Clone)]
pub struct Variable {
    pub name: String,
    pub value: Option<u64>,
}

impl Variable {
    pub fn new(name: String, value: Option<u64>) -> (r: Variable)
        ensures
            r.name == name,
            r.value == value,
    {
        Variable { name, value }
    }
}

#[derive(Debug, PartialEq, Clone)]
pub enum Token {
    Function(Func),
    Number(u64),
    Variable(Variable),
    Symbol(Symbol),
    Empty,
}

#[derive(Debug, PartialEq, Eq, Structural, Clone, Copy)]
pub enum Symbol {
    OpeningBracket,
    ClosingBracket,
    Comma,
}

/// The mathematical image of a token: the variable name is a character
/// sequence rather than an owned string.
pub ghost enum TokenModel {
    Function(Func),
    Number(u64),
    Variable(Seq<char>, Option<u64>),
    Symbol(Symbol),
    Empty,
}

/// The image of an executable token.
pub open spec fn token_model(t: Token) -> TokenModel {
    match t {
        Token::Function(f) => TokenModel::Function(f),
        Token::Number(b) => TokenModel::Number(b),
        Token::Variable(v) => TokenModel::Variable(v.name@, v.value),
        Token::Symbol(s) => TokenModel::Symbol(s),
        Token::Empty => TokenModel::Empty,
    }
}

/// The mathematical image of a collected tokenizer error.
pub ghost struct ErrModel {
    pub msg: Seq<char>,
    pub kind: TokenizerErrorType,
    pub start: int,
    pub end: int,
}

/// The image of an executable tokenizer error.
pub open spec fn err_model(e: TokenizerError) -> ErrModel {
    ErrModel { msg: e.error@, kind: e.error_type, start: e.token_start_idx as int, end: e.curr_idx as int }
}

/// Unicode whitespace, as the standard library classifies characters.
pub uninterp spec fn ws_char(c: char) -> bool;

/// Unicode alphabetic characters, as the standard library classifies them.
pub uninterp spec fn alpha_char(c: char) -> bool;

/// Unicode numeric characters, as the standard library classifies them.
pub uninterp spec fn numeric_char(c: char) -> bool;

/// Unicode uppercase characters, as the standard library classifies them.
pub uninterp spec fn upper_char(c: char) -> bool;

/// Relies on `char::is_whitespace`: the `White_Space` property, which holds
/// of the blank and of no digit, letter or ASCII punctuation.
#[verifier::external_body]
pub(crate) fn char_is_whitespace(c: char) -> (r: bool)
    ensures
        r == ws_char(c),
        c == ' ' ==> r,
        ('0' <= c && c <= '9') ==> !r,
        ('a' <= c && c <= 'z') ==> !r,
        ('A' <= c && c <= 'Z') ==> !r,
        ('!' <= c && c <= '/') ==> !r,
        (':' <= c && c <= '@') ==> !r,
{
    c.is_whitespace()
}

/// Relies on `char::is_alphabetic`: the `Alphabetic` property, which holds
/// of the ASCII letters and of no digit, blank or ASCII punctuation.
#[verifier::external_body]
pub(crate) fn char_is_alphabetic(c: char) -> (r: bool)
    ensures
        r == alpha_char(c),
        ('a' <= c && c <= 'z') ==> r,
        ('A' <= c && c <= 'Z') ==> r,
        ('0' <= c && c <= '9') ==> !r,
        c == ' ' ==> !r,
        ('!' <= c && c <= '/') ==> !r,
        (':' <= c && c <= '@') ==> !r,
{
    c.is_alphabetic()
}

/// Relies on `char::is_numeric`: the numeric general categories, which hold
/// of the ASCII digits and of no letter, blank or ASCII punctuation.
#[verifier::external_body]
pub(crate) fn char_is_numeric(c: char) -> (r: bool)
    ensures
        r == numeric_char(c),
        ('0' <= c && c <= '9') ==> r,
        ('a' <= c && c <= 'z') ==> !r,
        ('A' <= c && c <= 'Z') ==> !r,
        c == ' ' ==> !r,
        ('!' <= c && c <= '/') ==> !r,
        (':' <= c && c <= '@') ==> !r,
{
    c.is_numeric()
}

/// Relies on `char::is_uppercase`: the `Uppercase` property, which holds of
/// the ASCII capitals and of no ASCII lowercase letter.
#[verifier::external_body]
pub(crate) fn char_is_uppercase(c: char) -> (r: bool)
    ensures
        r == upper_char(c),
        ('A' <= c && c <= 'Z') ==> r,
        ('a' <= c && c <= 'z') ==> !r,
{
    c.is_uppercase()
}

/// The symbol table: brackets and the comma.
pub open spec fn symbol_of_char(c: char) -> Option<Symbol> {
    if c == '(' {
        Some(Symbol::OpeningBracket)
    } else if c == ')' {
        Some(Symbol::ClosingBracket)
    } else if c == ',' {
        Some(Symbol::Comma)
    } else {
        None
    }
}

/// Looks a character up in the symbol table.
pub fn symbol_for(c: char) -> (r: Option<Symbol>)
    ensures
        r == symbol_of_char(c),
{
    match c {
        '(' => Some(Symbol::OpeningBracket),
        ')' => Some(Symbol::ClosingBracket),
        ',' => Some(Symbol::Comma),
        _ => None,
    }
}

/// A character that continues a number run: numeric, or the decimal dot.
pub open spec fn numlike_char(c: char) -> bool {
    numeric_char(c) || c == '.'
}

/// A character that names an elementary operator.
pub open spec fn elem_char(c: char) -> bool {
    elementary_func_of_char(c) is Some
}

/// The length of the alphabetic run starting at `i`.
pub open spec fn alpha_run_len(s: Seq<char>, i: int) -> nat
    decreases s.len() - i,
{
    if i < 0 || i >= s.len() || !alpha_char(s[i]) {
        0
    } else {
        1 + alpha_run_len(s, i + 1)
    }
}

/// The length of the number run starting at `i`.
pub open spec fn num_run_len(s: Seq<char>, i: int) -> nat
    decreases s.len() - i,
{
    if i < 0 || i >= s.len() || !numlike_char(s[i]) {
        0
    } else {
        1 + num_run_len(s, i + 1)
    }
}

/// The bits of the NaN value recorded for an unparsable number literal.
pub open spec fn nan_bits() -> u64 {
    0x7FF8_0000_0000_0000
}

/// The message for a character no class recognizes.
pub open spec fn unrecognized_msg(input: Seq<char>, tv: Seq<char>) -> Seq<char> {
    "Input '"@ + input + "' was not recognized. '"@ + tv + "' is not a valid symbol."@
}

/// The message recorded when an empty token is consumed.
pub open spec fn empty_token_msg() -> Seq<char> {
    "Tried to tokenize an empty token."@
}

/// The message for an uppercase run that names no function.
pub open spec fn invalid_function_msg(tv: Seq<char>) -> Seq<char> {
    "'"@ + tv + "' is an invalid function name."@
}

/// The message for a character that is not in the symbol table.
pub open spec fn invalid_symbol_msg(tv: Seq<char>) -> Seq<char> {
    "'"@ + tv + "' is an invalid symbol."@
}

/// The message for a number run that fails to parse.
pub open spec fn invalid_number_msg(tv: Seq<char>) -> Seq<char> {
    "'"@ + tv + "' is an invalid number, because:\n invalid float literal"@
}

/// What one scan of the input yields: the token sequence (before implicit
/// multiplications) and every lexical error, in order.
pub ghost struct ScanOut {
    pub toks: Seq<TokenModel>,
    pub errs: Seq<ErrModel>,
}

/// The single left-to-right scan, from position `i` on: whitespace is
/// skipped; a symbol or elementary-operator character is one token; an
/// alphabetic run is a higher-order function name if it starts uppercase
/// (an unknown name is an error) and a variable otherwise; a numeric run
/// extends over digits and dots and is parsed as a 64-bit value (recording
/// an error and a NaN token if it fails); any other character is an error.
pub open spec fn scan(input: Seq<char>, i: int) -> ScanOut
    decreases input.len() - i,
{
    if i < 0 || i >= input.len() {
        ScanOut { toks: Seq::empty(), errs: Seq::empty() }
    } else {
        let c = input[i];
        if ws_char(c) {
            scan(input, i + 1)
        } else if sym_char(c) {
            let rest = scan(input, i + 1);
            ScanOut { toks: seq![TokenModel::Symbol(symbol_of_char(c)->Some_0)] + rest.toks, errs: rest.errs }
        } else if elem_char(c) {
            let rest = scan(input, i + 1);
            ScanOut {
                toks: seq![TokenModel::Function(Func::Elementary(elementary_func_of_char(c)->Some_0))] + rest.toks,
                errs: rest.errs,
            }
        } else if alpha_char(c) {
            let j0 = i + 1 + alpha_run_len(input, i + 1);
            let j = if j0 <= input.len() {
                j0
            } else {
                input.len() as int
            };
            let tv = input.subrange(i, j);
            let rest = scan(input, j);
            if upper_char(c) {
                match higher_order_func_of_name(tv) {
                    Some(f) => ScanOut {
                        toks: seq![TokenModel::Function(Func::HigherOrder(f))] + rest.toks,
                        errs: rest.errs,
                    },
                    None => ScanOut {
                        toks: seq![TokenModel::Empty] + rest.toks,
                        errs: seq![
                            ErrModel {
                                msg: invalid_function_msg(tv),
                                kind: TokenizerErrorType::InvalidFunctionName,
                                start: i,
                                end: j - 1,
                            },
                        ] + rest.errs,
                    },
                }
            } else {
                ScanOut { toks: seq![TokenModel::Variable(tv, None)] + rest.toks, errs: rest.errs }
            }
        } else if numeric_char(c) {
            let j0 = i + 1 + num_run_len(input, i + 1);
            let j = if j0 <= input.len() {
                j0
            } else {
                input.len() as int
            };
            let tv = input.subrange(i, j);
            let rest = scan(input, j);
            match double_of_decimal(tv) {
                Some(b) => ScanOut { toks: seq![TokenModel::Number(b)] + rest.toks, errs: rest.errs },
                None => ScanOut {
                    toks: seq![TokenModel::Number(nan_bits())] + rest.toks,
                    errs: seq![
                        ErrModel {
                            msg: invalid_number_msg(tv),
                            kind: TokenizerErrorType::InvalidNumber,
                            start: i,
                            end: j - 1,
                        },
                    ] + rest.errs,
                },
            }
        } else {
            let rest = scan(input, i + 1);
            ScanOut {
                toks: seq![TokenModel::Empty] + rest.toks,
                errs: seq![
                    ErrModel {
                        msg: unrecognized_msg(input, seq![c]),
                        kind: TokenizerErrorType::UnrecognizedInput,
                        start: i,
                        end: i,
                    },
                    ErrModel { msg: empty_token_msg(), kind: TokenizerErrorType::EmptyToken, start: i, end: i },
                ] + rest.errs,
            }
        }
    }
}

/// A character of the symbol table.
pub open spec fn sym_char(c: char) -> bool {
    symbol_of_char(c) is Some
}

/// The tokens with the empty ones removed.
pub open spec fn remove_empty(toks: Seq<TokenModel>) -> Seq<TokenModel> {
    toks.filter(|t: TokenModel| !(t is Empty))
}

/// A token after which a juxtaposed operand means multiplication.
pub open spec fn mult_left(t: TokenModel) -> bool {
    match t {
        TokenModel::Number(_) => true,
        TokenModel::Symbol(Symbol::ClosingBracket) => true,
        TokenModel::Variable(_, _) => true,
        _ => false,
    }
}

/// A token before which a juxtaposed operand means multiplication.
pub open spec fn mult_right(t: TokenModel) -> bool {
    match t {
        TokenModel::Function(Func::HigherOrder(_)) => true,
        TokenModel::Number(_) => true,
        TokenModel::Symbol(Symbol::OpeningBracket) => true,
        TokenModel::Variable(_, _) => true,
        _ => false,
    }
}

/// The token sequence with an implicit multiplication inserted between
/// every juxtaposed pair.
pub open spec fn with_mults(toks: Seq<TokenModel>) -> Seq<TokenModel>
    decreases toks.len(),
{
    if toks.len() <= 1 {
        toks
    } else {
        seq![toks[0]] + (if mult_left(toks[0]) && mult_right(toks[1]) {
            seq![TokenModel::Function(Func::Elementary(ElementaryFunc::Multiplication))]
        } else {
            Seq::empty()
        }) + with_mults(toks.drop_first())
    }
}

/// The full token sequence the tokenizer produces for the input.
pub open spec fn spec_tokens(input: Seq<char>) -> Seq<TokenModel> {
    with_mults(remove_empty(scan(input, 0).toks))
}

proof fn lemma_with_mults_head(toks: Seq<TokenModel>)
    requires
        toks.len() >= 1,
    ensures
        with_mults(toks).len() >= 1,
        with_mults(toks)[0] == toks[0],
{
    if toks.len() > 1 {
        assert(with_mults(toks)[0] == toks[0]);
    }
}

/// Law: after the insertion of implicit multiplications, no two juxtaposed
/// operands remain adjacent — every pair that means a multiplication has one
/// between them.  In particular this holds of the token sequence the
/// tokenizer returns, for any input.
pub proof fn lemma_no_juxtaposed_pair(toks: Seq<TokenModel>, i: int)
    requires
        0 <= i,
        i + 1 < with_mults(toks).len(),
    ensures
        !(mult_left(with_mults(toks)[i]) && mult_right(with_mults(toks)[i + 1])),
    decreases toks.len(),
{
    if toks.len() <= 1 {
    } else {
        let rest = toks.drop_first();
        let out = with_mults(toks);
        if mult_left(toks[0]) && mult_right(toks[1]) {
            let mid = seq![TokenModel::Function(Func::Elementary(ElementaryFunc::Multiplication))];
            assert(out =~= seq![toks[0]] + mid + with_mults(rest));
            if i == 0 {
                assert(out[1] == mid[0]);
            } else if i == 1 {
                lemma_with_mults_head(rest);
                assert(out[1] == mid[0]);
            } else {
                assert(out[i] == with_mults(rest)[i - 2]);
                assert(out[i + 1] == with_mults(rest)[i - 1]);
                lemma_no_juxtaposed_pair(rest, i - 2);
            }
        } else {
            assert(out =~= seq![toks[0]] + with_mults(rest));
            if i == 0 {
                lemma_with_mults_head(rest);
                assert(out[1] == rest[0]);
                assert(rest[0] == toks[1]);
            } else {
                assert(out[i] == with_mults(rest)[i - 1]);
                assert(out[i + 1] == with_mults(rest)[i]);
                lemma_no_juxtaposed_pair(rest, i - 1);
            }
        }
    }
}

/// The errors the tokenizer collects for the input.
pub open spec fn spec_errors(input: Seq<char>) -> Seq<ErrModel> {
    scan(input, 0).errs
}

/// The images of a sequence of executable tokens.
pub open spec fn models(v: Seq<Token>) -> Seq<TokenModel> {
    v.map_values(|t: Token| token_model(t))
}

/// The images of a sequence of executable tokenizer errors.
pub open spec fn err_models(v: Seq<TokenizerError>) -> Seq<ErrModel> {
    v.map_values(|e: TokenizerError| err_model(e))
}

proof fn lemma_alpha_run(s: Seq<char>, a: int, b: int)
    requires
        0 <= a <= b <= s.len(),
        forall|k: int| a <= k < b ==> alpha_char(#[trigger] s[k]),
        b == s.len() || !alpha_char(s[b]),
    ensures
        alpha_run_len(s, a) == b - a,
    decreases b - a,
{
    if a < b {
        lemma_alpha_run(s, a + 1, b);
    }
}

proof fn lemma_num_run(s: Seq<char>, a: int, b: int)
    requires
        0 <= a <= b <= s.len(),
        forall|k: int| a <= k < b ==> numlike_char(#[trigger] s[k]),
        b == s.len() || !numlike_char(s[b]),
    ensures
        num_run_len(s, a) == b - a,
    decreases b - a,
{
    if a < b {
        lemma_num_run(s, a + 1, b);
    }
}

/// The text of the characters of `v` between `from` and `to`.
fn chars_substring(v: &Vec<char>, from: usize, to: usize) -> (r: String)
    requires
        from <= to <= v@.len(),
    ensures
        r@ == v@.subrange(from as int, to as int),
{
    let mut r = String::new();
    let mut i: usize = from;
    while i < to
        invariant
            from <= i <= to <= v@.len(),
            r@ == v@.subrange(from as int, i as int),
        decreases to - i,
    {
        r.push(v[i]);
        proof {
            assert(r@ =~= v@.subrange(from as int, (i + 1) as int));
        }
        i = i + 1;
    }
    r
}

/// Builds one collected error, with the message its kind calls for.
fn make_error(error_type: TokenizerErrorType, input: &String, token_value: &str, start: usize, end: usize) -> (e:
    TokenizerError)
    ensures
        err_model(e) == (ErrModel {
            msg: match error_type {
                TokenizerErrorType::UnrecognizedInput => unrecognized_msg(input@, token_value@),
                TokenizerErrorType::EmptyToken => empty_token_msg(),
                TokenizerErrorType::InvalidFunctionName => invalid_function_msg(token_value@),
                TokenizerErrorType::InvalidSymbol => invalid_symbol_msg(token_value@),
                TokenizerErrorType::InvalidNumber => invalid_number_msg(token_value@),
            },
            kind: error_type,
            start: start as int,
            end: end as int,
        }),
{
    let msg = match error_type {
        TokenizerErrorType::UnrecognizedInput => {
            let m = String::from_str("Input '").concat(input.as_str()).concat("' was not recognized. '").concat(
                token_value,
            ).concat("' is not a valid symbol.");
            proof {
                assert(m@ =~= unrecognized_msg(input@, token_value@));
            }
            m
        },
        TokenizerErrorType::EmptyToken => String::from_str("Tried to tokenize an empty token."),
        TokenizerErrorType::InvalidFunctionName => {
            let m = String::from_str("'").concat(token_value).concat("' is an invalid function name.");
            proof {
                assert(m@ =~= invalid_function_msg(token_value@));
            }
            m
        },
        TokenizerErrorType::InvalidSymbol => {
            let m = String::from_str("'").concat(token_value).concat("' is an invalid symbol.");
            proof {
                assert(m@ =~= invalid_symbol_msg(token_value@));
            }
            m
        },
        TokenizerErrorType::InvalidNumber => {
            let m = String::from_str("'").concat(token_value).concat(
                "' is an invalid number, because:\n invalid float literal",
            );
            proof {
                assert(m@ =~= invalid_number_msg(token_value@));
            }
            m
        },
    };
    TokenizerError::new(msg, error_type, start, end)
}

/// Whether a juxtaposed operand after this token means multiplication.
fn is_mult_left(t: &Token) -> (r: bool)
    ensures
        r == mult_left(token_model(*t)),
{
    match t {
        Token::Number(_) => true,
        Token::Symbol(Symbol::ClosingBracket) => true,
        Token::Variable(_) => true,
        _ => false,
    }
}

/// Whether a juxtaposed operand before this token means multiplication.
fn is_mult_right(t: &Token) -> (r: bool)
    ensures
        r == mult_right(token_model(*t)),
{
    match t {
        Token::Function(Func::HigherOrder(_)) => true,
        Token::Number(_) => true,
        Token::Symbol(Symbol::OpeningBracket) => true,
        Token::Variable(_) => true,
        _ => false,
    }
}

/// The scanner state: the input line (kept for error messages), its
/// characters, the cursor, and the tokens and errors collected so far.
struct Tokenizer {
    input: String,
    chars: Vec<char>,
    curr_idx: usize,
    tokens: Vec<Token>,
    errors: Vec<TokenizerError>,
}

impl Tokenizer {
    fn from(input: String) -> (t: Tokenizer)
        ensures
            t.input == input,
            t.chars@ == input@,
            t.curr_idx == 0,
            t.tokens@.len() == 0,
            t.errors@.len() == 0,
    {
        let chars = crate::render::str_chars(input.as_str());
        Tokenizer { input, chars, curr_idx: 0, tokens: Vec::new(), errors: Vec::new() }
    }

    /// Removes every empty token, keeping the order of the rest.
    fn remove_empty_tokens(&mut self)
        ensures
            models(final(self).tokens@) == remove_empty(models(old(self).tokens@)),
            final(self).errors == old(self).errors,
            final(self).input == old(self).input,
            final(self).chars == old(self).chars,
    {
        let ghost origv = self.tokens@;
        let mut kept: Vec<Token> = Vec::new();
        while self.tokens.len() > 0
            invariant
                self.tokens@ == origv.skip(origv.len() - self.tokens@.len()),
                self.tokens@.len() <= origv.len(),
                models(kept@) == remove_empty(models(origv.take(origv.len() - self.tokens@.len()))),
                self.errors == old(self).errors,
                self.input == old(self).input,
                self.chars == old(self).chars,
            decreases self.tokens@.len(),
        {
            let ghost k = origv.len() - self.tokens@.len();
            let t = self.tokens.remove(0);
            proof {
                reveal(Seq::<TokenModel>::filter);
                assert(t == origv[k as int]);
                assert(self.tokens@ =~= origv.skip(k + 1));
                let prev = models(origv.take(k as int));
                let now = models(origv.take(k + 1));
                assert(now.drop_last() =~= prev);
                assert(now.last() == token_model(origv[k as int]));
                assert(remove_empty(now) == if !(token_model(origv[k as int]) is Empty) {
                    remove_empty(prev).push(token_model(origv[k as int]))
                } else {
                    remove_empty(prev)
                });
            }
            if !(matches!(t, Token::Empty)) {
                kept.push(t);
                proof {
                    assert(models(kept@) =~= models(kept@.drop_last()).push(token_model(t)));
                    assert(models(kept@) =~= remove_empty(models(origv.take(
                        origv.len() - self.tokens@.len(),
                    ))));
                }
            } else {
                proof {
                    assert(models(kept@) =~= remove_empty(models(origv.take(
                        origv.len() - self.tokens@.len(),
                    ))));
                }
            }
        }
        proof {
            assert(origv.take(origv.len() as int) =~= origv);
        }
        self.tokens = kept;
    }

    /// Inserts an implicit multiplication between every juxtaposed pair of
    /// tokens.
    fn add_multiplications(&mut self)
        ensures
            models(final(self).tokens@) == with_mults(models(old(self).tokens@)),
            final(self).errors == old(self).errors,
            final(self).input == old(self).input,
            final(self).chars == old(self).chars,
    {
        let ghost origv = self.tokens@;
        let mut out: Vec<Token> = Vec::new();
        proof {
            assert(self.tokens@ =~= origv.skip(0));
            assert(models(origv).skip(0) =~= models(origv));
            assert(models(out@) + with_mults(models(origv)) =~= with_mults(models(origv)));
        }
        while self.tokens.len() > 0
            invariant
                self.tokens@ == origv.skip(origv.len() - self.tokens@.len()),
                self.tokens@.len() <= origv.len(),
                models(out@) + with_mults(models(origv).skip(origv.len() - self.tokens@.len())) == with_mults(
                    models(origv),
                ),
                self.errors == old(self).errors,
                self.input == old(self).input,
                self.chars == old(self).chars,
            decreases self.tokens@.len(),
        {
            let ghost k = origv.len() - self.tokens@.len();
            let ghost rest = models(origv).skip(k as int);
            let t = self.tokens.remove(0);
            proof {
                assert(t == origv[k as int]);
                assert(self.tokens@ =~= origv.skip(k + 1));
                assert(models(origv).len() == origv.len());
                assert(rest[0] == token_model(origv[k as int]));
                assert(rest.drop_first() =~= models(origv).skip(k + 1));
                if rest.len() >= 2 {
                    assert(rest[1] == token_model(origv[k + 1]));
                }
            }
            let left = is_mult_left(&t);
            out.push(t);
            if self.tokens.len() > 0 && left && is_mult_right(&self.tokens[0]) {
                out.push(Token::Function(Func::Elementary(ElementaryFunc::Multiplication)));
                proof {
                    assert(self.tokens@[0] == origv[k + 1]);
                    assert(with_mults(rest) =~= seq![rest[0]] + seq![
                        TokenModel::Function(Func::Elementary(ElementaryFunc::Multiplication)),
                    ] + with_mults(rest.drop_first()));
                    assert(models(out@) =~= models(out@.drop_last().drop_last()).push(token_model(t)).push(
                        TokenModel::Function(Func::Elementary(ElementaryFunc::Multiplication)),
                    ));
                    assert(models(out@) + with_mults(models(origv).skip(k + 1)) =~= with_mults(models(origv)));
                }
            } else {
                proof {
                    if rest.len() >= 2 {
                        assert(self.tokens@[0] == origv[k + 1]);
                        assert(!(mult_left(rest[0]) && mult_right(rest[1])));
                        assert(with_mults(rest) =~= seq![rest[0]] + with_mults(rest.drop_first()));
                    } else {
                        assert(rest.len() == 1);
                        assert(with_mults(rest) == rest);
                        assert(with_mults(rest) =~= seq![rest[0]] + with_mults(rest.drop_first()));
                    }
                    assert(models(out@) =~= models(out@.drop_last()).push(token_model(t)));
                    assert(models(out@) + with_mults(models(origv).skip(k + 1)) =~= with_mults(models(origv)));
                }
            }
        }
        proof {
            assert(models(origv).skip(origv.len() as int) =~= Seq::<TokenModel>::empty());
            assert(with_mults(models(origv).skip(origv.len() as int)) =~= Seq::<TokenModel>::empty());
            assert(models(out@) =~= with_mults(models(origv)));
        }
        self.tokens = out;
    }

    /// The scan itself: one pass over the characters, then the removal of
    /// empty tokens and the insertion of implicit multiplications.
    fn run(&mut self)
        requires
            old(self).curr_idx == 0,
            old(self).tokens@.len() == 0,
            old(self).errors@.len() == 0,
            old(self).chars@ == old(self).input@,
        ensures
            models(final(self).tokens@) == spec_tokens(old(self).input@),
            err_models(final(self).errors@) == spec_errors(old(self).input@),
            final(self).input == old(self).input,
    {
        let ghost s = self.chars@;
        while self.curr_idx < self.chars.len()
            invariant
                self.chars@ == s,
                self.input@ == s,
                self.input == old(self).input,
                self.curr_idx <= s.len(),
                scan(s, 0).toks == models(self.tokens@) + scan(s, self.curr_idx as int).toks,
                scan(s, 0).errs == err_models(self.errors@) + scan(s, self.curr_idx as int).errs,
            decreases s.len() - self.curr_idx,
        {
            let i = self.curr_idx;
            let c = self.chars[i];
            let ghost toks0 = models(self.tokens@);
            let ghost errs0 = err_models(self.errors@);
            if char_is_whitespace(c) {
                self.curr_idx = i + 1;
            } else if let Some(sym) = symbol_for(c) {
                self.tokens.push(Token::Symbol(sym));
                self.curr_idx = i + 1;
                proof {
                    assert(models(self.tokens@) =~= toks0.push(TokenModel::Symbol(sym)));
                    assert(scan(s, 0).toks =~= models(self.tokens@) + scan(s, (i + 1) as int).toks);
                }
            } else if let Some(f) = elementary_func_for(c) {
                self.tokens.push(Token::Function(Func::Elementary(f)));
                self.curr_idx = i + 1;
                proof {
                    assert(models(self.tokens@) =~= toks0.push(TokenModel::Function(Func::Elementary(f))));
                    assert(scan(s, 0).toks =~= models(self.tokens@) + scan(s, (i + 1) as int).toks);
                }
            } else if char_is_alphabetic(c) {
                let start = i;
                let mut j = i;
                while j < self.chars.len() - 1 && char_is_alphabetic(self.chars[j + 1])
                    invariant
                        self.chars@ == s,
                        start <= j < s.len(),
                        forall|k: int| start + 1 <= k <= j ==> alpha_char(#[trigger] s[k]),
                    decreases s.len() - j,
                {
                    j = j + 1;
                }
                proof {
                    lemma_alpha_run(s, (start + 1) as int, (j + 1) as int);
                }
                let tv = chars_substring(&self.chars, start, j + 1);
                let ghost tv_view = tv@;
                if char_is_uppercase(c) {
                    match higher_order_func_for(tv.as_str()) {
                        Some(f) => {
                            self.tokens.push(Token::Function(Func::HigherOrder(f)));
                        },
                        None => {
                            let e = make_error(
                                TokenizerErrorType::InvalidFunctionName,
                                &self.input,
                                tv.as_str(),
                                start,
                                j,
                            );
                            self.errors.push(e);
                            self.tokens.push(Token::Empty);
                        },
                    }
                } else {
                    self.tokens.push(Token::Variable(Variable::new(tv, None)));
                }
                self.curr_idx = j + 1;
                proof {
                    let jj = (j + 1) as int;
                    assert(scan(s, i as int).toks =~= models(self.tokens@).skip(toks0.len() as int) + scan(
                        s,
                        jj,
                    ).toks);
                    assert(scan(s, 0).toks =~= models(self.tokens@) + scan(s, jj).toks);
                    assert(scan(s, i as int).errs =~= err_models(self.errors@).skip(errs0.len() as int) + scan(
                        s,
                        jj,
                    ).errs);
                    assert(scan(s, 0).errs =~= err_models(self.errors@) + scan(s, jj).errs);
                }
            } else if char_is_numeric(c) {
                let start = i;
                let mut j = i;
                while j < self.chars.len() - 1 && (char_is_numeric(self.chars[j + 1]) || self.chars[j + 1] == '.')
                    invariant
                        self.chars@ == s,
                        start <= j < s.len(),
                        forall|k: int| start + 1 <= k <= j ==> numlike_char(#[trigger] s[k]),
                    decreases s.len() - j,
                {
                    j = j + 1;
                }
                proof {
                    lemma_num_run(s, (start + 1) as int, (j + 1) as int);
                }
                let tv = chars_substring(&self.chars, start, j + 1);
                let ghost tv_view = tv@;
                match parse_double(tv.as_str()) {
                    Some(b) => {
                        self.tokens.push(Token::Number(b));
                    },
                    None => {
                        let e = make_error(TokenizerErrorType::InvalidNumber, &self.input, tv.as_str(), start, j);
                        self.errors.push(e);
                        self.tokens.push(Token::Number(0x7FF8_0000_0000_0000u64));
                    },
                }
                self.curr_idx = j + 1;
                proof {
                    let jj = (j + 1) as int;
                    assert(scan(s, i as int).toks =~= models(self.tokens@).skip(toks0.len() as int) + scan(
                        s,
                        jj,
                    ).toks);
                    assert(scan(s, 0).toks =~= models(self.tokens@) + scan(s, jj).toks);
                    assert(scan(s, i as int).errs =~= err_models(self.errors@).skip(errs0.len() as int) + scan(
                        s,
                        jj,
                    ).errs);
                    assert(scan(s, 0).errs =~= err_models(self.errors@) + scan(s, jj).errs);
                }
            } else {
                let mut tvs = String::new();
                tvs.push(c);
                proof {
                    assert(tvs@ =~= seq![c]);
                }
                let e1 = make_error(TokenizerErrorType::UnrecognizedInput, &self.input, tvs.as_str(), i, i);
                self.errors.push(e1);
                let e2 = make_error(TokenizerErrorType::EmptyToken, &self.input, "", i, i);
                self.errors.push(e2);
                self.tokens.push(Token::Empty);
                self.curr_idx = i + 1;
                proof {
                    assert(models(self.tokens@) =~= toks0.push(TokenModel::Empty));
                    assert(err_models(self.errors@) =~= errs0.push(
                        ErrModel {
                            msg: unrecognized_msg(s, seq![c]),
                            kind: TokenizerErrorType::UnrecognizedInput,
                            start: i as int,
                            end: i as int,
                        },
                    ).push(
                        ErrModel {
                            msg: empty_token_msg(),
                            kind: TokenizerErrorType::EmptyToken,
                            start: i as int,
                            end: i as int,
                        },
                    ));
                    assert(scan(s, 0).toks =~= models(self.tokens@) + scan(s, (i + 1) as int).toks);
                    assert(scan(s, 0).errs =~= err_models(self.errors@) + scan(s, (i + 1) as int).errs);
                }
            }
        }
        proof {
            assert(scan(s, self.curr_idx as int).toks =~= Seq::<TokenModel>::empty());
            assert(scan(s, self.curr_idx as int).errs =~= Seq::<ErrModel>::empty());
            assert(models(self.tokens@) =~= scan(s, 0).toks);
            assert(err_models(self.errors@) =~= scan(s, 0).errs);
        }
        self.remove_empty_tokens();
        self.add_multiplications();
    }
}

/// Scans the whole line: the full token sequence when it holds no lexical
/// error, and otherwise the complete list of errors, in order.
pub fn tokenize(input: String) -> (r: Result<Vec<Token>, Vec<CLMathError>>)
    ensures
        spec_errors(input@).len() == 0 ==> (r matches Ok(toks) && models(toks@) == spec_tokens(input@)),
        spec_errors(input@).len() > 0 ==> (r matches Err(errs) && errs@.len() == spec_errors(input@).len() && (forall|
            i: int,
        |
            0 <= i < errs@.len() ==> ((#[trigger] errs@[i]) matches CLMathError::Tokenizer(te) && err_model(te)
                == spec_errors(input@)[i]))),
{
    let ghost iv = input@;
    let mut tokenizer = Tokenizer::from(input);
    tokenizer.run();
    if tokenizer.errors.len() > 0 {
        let ghost errv = tokenizer.errors@;
        let mut out: Vec<CLMathError> = Vec::new();
        while tokenizer.errors.len() > 0
            invariant
                tokenizer.errors@ == errv.skip(out@.len() as int),
                out@.len() + tokenizer.errors@.len() == errv.len(),
                forall|i: int|
                    0 <= i < out@.len() ==> ((#[trigger] out@[i]) matches CLMathError::Tokenizer(te) && te
                        == errv[i]),
            decreases tokenizer.errors@.len(),
        {
            let ghost k = out@.len();
            let e = tokenizer.errors.remove(0);
            proof {
                assert(e == errv[k as int]);
                assert(tokenizer.errors@ =~= errv.skip(k + 1 as int));
            }
            out.push(CLMathError::Tokenizer(e));
        }
        proof {
            assert(err_models(errv) == spec_errors(iv));
            assert forall|i: int| 0 <= i < out@.len() implies (#[trigger] out@[i]) matches CLMathError::Tokenizer(
                te,
            ) && err_model(te) == spec_errors(iv)[i] by {
                assert(err_models(errv)[i] == err_model(errv[i]));
            }
        }
        Err(out)
    } else {
        proof {
            assert(err_models(tokenizer.errors@).len() == 0);
        }
        Ok(tokenizer.tokens)
    }
}

} // verus!
