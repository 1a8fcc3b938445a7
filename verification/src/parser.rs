//! The parser: recursive descent over the token sequence into an expression
//! tree, with a deferred left-hand side for infix operators, an explicit
//! stack of bracket boundaries, and a non-returning mode that keeps
//! evaluation left-to-right.
use vstd::prelude::*;

use crate::error::CLMathError;
use crate::error::ParserError;
use crate::functions::ElementaryFunc;
use crate::functions::Func;
use crate::functions::HigherOrderFunc;
use crate::functions::stored_params;
use crate::tokenizer::Symbol;
use crate::tokenizer::Token;
use crate::tokenizer::Variable;

verus! {

broadcast use vstd::std_specs::vec::axiom_vec_index_decreases, vstd::std_specs::vec::axiom_vec_decreases_to_view, vstd::seq::axiom_seq_index_decreases;

#[derive(Debug, PartialEq)]
pub enum Start {
    Expression(Expression),
    Empty,
}

#[derive(Debug, PartialEq)]
pub enum Expression {
    BracketedExpression(Box<BracketedExpression>),
    MathExpression(Box<MathExpression>),
}

#[derive(Debug, PartialEq)]
pub struct BracketedExpression {
    pub opening_bracket: OpeningBracket,
    pub expression: Expression,
    pub closing_bracket: ClosingBracket,
}

#[derive(Debug, PartialEq)]
pub enum MathExpression {
    Number(u64),
    Variable(Variable),
    Function(Function),
}

#[derive(Debug, PartialEq)]
pub enum Function {
    ElementaryFunction(ElementaryFunction),
    HigherOrderFunction(HigherOrderFunction),
}

#[derive(Debug, PartialEq)]
pub struct OpeningBracket;

#[derive(Debug, PartialEq)]
pub struct ClosingBracket;

#[derive(Debug, PartialEq)]
pub struct Comma;

#[derive(Debug, PartialEq)]
pub struct ElementaryFunction {
    pub expression_lhs: Expression,
    pub function: ElementaryFunc,
    pub expression_rhs: Expression,
}

#[derive(Debug, PartialEq)]
pub struct HigherOrderFunction {
    pub function: HigherOrderFunc,
    pub opening_bracket: OpeningBracket,
    pub params: Params,
    pub closing_bracket: ClosingBracket,
}

#[derive(Debug, PartialEq)]
pub struct Params {
    pub expression: Expression,
    pub expression_comma: Option<Vec<(Comma, Expression)>>,
}

impl Params {
    fn new(expression: Expression, expression_comma: Option<Vec<(Comma, Expression)>>) -> (r: Self)
        ensures
            r.expression == expression,
            r.expression_comma == expression_comma,
    {
        Self { expression, expression_comma }
    }
}

/// The mathematical image of an expression tree: brackets keep their node,
/// a higher-order call carries its parameters as one sequence, and a
/// variable is its name and optional value.
#[verifier::ext_equal]
pub ghost enum ExprModel {
    Bracketed(Box<ExprModel>),
    Number(u64),
    Variable(Seq<char>, Option<u64>),
    Elementary(Box<ExprModel>, ElementaryFunc, Box<ExprModel>),
    Higher(HigherOrderFunc, Seq<ExprModel>),
}

/// The image of a parsed line: an expression or nothing.
pub ghost enum StartModel {
    Expression(ExprModel),
    Empty,
}

/// The image of an expression node.
pub open spec fn expr_model(e: Expression) -> ExprModel
    decreases e, 0int,
{
    match e {
        Expression::BracketedExpression(b) => ExprModel::Bracketed(Box::new(expr_model(b.expression))),
        Expression::MathExpression(m) => math_model(*m),
    }
}

/// The image of a primary node.
pub open spec fn math_model(m: MathExpression) -> ExprModel
    decreases m, 0int,
{
    match m {
        MathExpression::Number(b) => ExprModel::Number(b),
        MathExpression::Variable(v) => ExprModel::Variable(v.name@, v.value),
        MathExpression::Function(f) => func_model(f),
    }
}

/// The image of a function node.
pub open spec fn func_model(f: Function) -> ExprModel
    decreases f, 0int,
{
    match f {
        Function::ElementaryFunction(ef) => ExprModel::Elementary(
            Box::new(expr_model(ef.expression_lhs)),
            ef.function,
            Box::new(expr_model(ef.expression_rhs)),
        ),
        Function::HigherOrderFunction(h) => ExprModel::Higher(h.function, params_model(h.params)),
    }
}

/// The image of a parameter list: the first parameter, then the rest.
pub open spec fn params_model(p: Params) -> Seq<ExprModel>
    decreases p, 0int,
{
    seq![expr_model(p.expression)] + (match p.expression_comma {
        None => Seq::<ExprModel>::empty(),
        Some(v) => comma_models(v, 0),
    })
}

/// The images of the comma-led parameters from position `i` on.
pub open spec fn comma_models(v: Vec<(Comma, Expression)>, i: int) -> Seq<ExprModel>
    decreases v, v@.len() - i,
{
    if i < 0 || i >= v@.len() {
        Seq::<ExprModel>::empty()
    } else {
        seq![expr_model(v@[i].1)] + comma_models(v, i + 1)
    }
}

/// The image of a parsed line.
pub open spec fn start_model(s: Start) -> StartModel {
    match s {
        Start::Expression(e) => StartModel::Expression(expr_model(e)),
        Start::Empty => StartModel::Empty,
    }
}

/// The parser state: the remaining tokens, the deferred left-hand sides,
/// the bracket boundaries (absolute token indices), the returning flag and
/// the count of consumed tokens.
#[verifier::ext_equal]
pub ghost struct PState {
    pub toks: Seq<Token>,
    pub lhs: Seq<ExprModel>,
    pub ends: Seq<int>,
    pub returning: bool,
    pub curr: int,
}

/// The index, relative to `idx`, of the closing bracket that matches one
/// already-open bracket (`depth` starts at one), or `None` if the sequence
/// runs out first.
pub open spec fn matching_bracket(toks: Seq<Token>, idx: int, depth: int) -> Option<int>
    decreases toks.len() - idx,
{
    if idx < 0 || idx >= toks.len() {
        None
    } else {
        let d = match toks[idx] {
            Token::Symbol(Symbol::OpeningBracket) => depth + 1,
            Token::Symbol(Symbol::ClosingBracket) => depth - 1,
            _ => depth,
        };
        if d == 0 {
            Some(idx)
        } else {
            matching_bracket(toks, idx + 1, d)
        }
    }
}

/// One consumed token: the head is removed and the consumption count
/// advances.
pub open spec fn consume_one(st: PState) -> PState {
    PState { toks: st.toks.drop_first(), curr: st.curr + 1, ..st }
}

/// The machine step for a primary: a number, a variable, or a function
/// introduced by its token.
pub open spec fn sp_math(st: PState) -> (Result<ExprModel, ParserError>, PState)
    decreases st.toks.len(), 3int, 0int,
{
    if st.toks.len() == 0 {
        (Err(ParserError::ExpressionEmpty), PState { curr: st.curr + 1, ..st })
    } else {
        let t = st.toks[0];
        let st1 = consume_one(st);
        match t {
            Token::Number(b) => (Ok(ExprModel::Number(b)), st1),
            Token::Variable(v) => (Ok(ExprModel::Variable(v.name@, v.value)), st1),
            Token::Function(f) => sp_function(st1, f),
            _ => (Err(ParserError::ExpectedMathExpression), st1),
        }
    }
}

/// The machine step for a function node.
pub open spec fn sp_function(st: PState, f: Func) -> (Result<ExprModel, ParserError>, PState)
    decreases st.toks.len(), 10int, 0int,
{
    match f {
        Func::Elementary(ef) => sp_elementary(st, ef),
        Func::HigherOrder(hf) => sp_higher(st, hf),
    }
}

/// The machine step for an infix operator: the deferred left-hand side is
/// taken from the stack and the right-hand side is parsed in non-returning
/// mode.
pub open spec fn sp_elementary(st: PState, ef: ElementaryFunc) -> (Result<ExprModel, ParserError>, PState)
    decreases st.toks.len(), 9int, 0int,
{
    if st.lhs.len() == 0 {
        (Err(ParserError::NoLhsExpressionProvided), st)
    } else {
        let lhs = st.lhs[0];
        let st1 = PState { lhs: st.lhs.drop_first(), ..st };
        let (r, st2) = sp_non_returning(st1);
        match r {
            Err(p) => (Err(p), st2),
            Ok(rhs) => (Ok(ExprModel::Elementary(Box::new(lhs), ef, Box::new(rhs))), st2),
        }
    }
}

/// The machine step for a higher-order call: bracket, parameters, bracket.
pub open spec fn sp_higher(st: PState, hf: HigherOrderFunc) -> (Result<ExprModel, ParserError>, PState)
    decreases st.toks.len(), 9int, 0int,
{
    let (r1, st1) = sp_opening_bracket(st);
    if r1 is Err {
        (Err(r1->Err_0), st1)
    } else if st1.toks.len() > st.toks.len() {
        (Err(ParserError::ExpressionEmpty), st1)
    } else {
        let (r2, st2) = sp_params(st1, hf);
        match r2 {
            Err(p) => (Err(p), st2),
            Ok(ps) => {
                if st2.toks.len() > st.toks.len() {
                    (Err(ParserError::ExpressionEmpty), st2)
                } else {
                    let (r3, st3) = sp_closing_bracket(st2);
                    if r3 is Err {
                        (Err(r3->Err_0), st3)
                    } else {
                        (Ok(ExprModel::Higher(hf, ps)), st3)
                    }
                }
            },
        }
    }
}

/// The machine step for a required opening bracket.
pub open spec fn sp_opening_bracket(st: PState) -> (Result<(), ParserError>, PState)
    decreases st.toks.len(), 0int, 0int,
{
    if st.toks.len() == 0 {
        (Err(ParserError::ExpressionEmpty), PState { curr: st.curr + 1, ..st })
    } else {
        let t = st.toks[0];
        let st1 = consume_one(st);
        if t is Symbol && t->Symbol_0 is OpeningBracket {
            (Ok(()), st1)
        } else {
            (Err(ParserError::ExpectedOpeningBracket), st1)
        }
    }
}

/// The machine step for a required closing bracket.
pub open spec fn sp_closing_bracket(st: PState) -> (Result<(), ParserError>, PState)
    decreases st.toks.len(), 0int, 0int,
{
    if st.toks.len() == 0 {
        (Err(ParserError::ExpressionEmpty), PState { curr: st.curr + 1, ..st })
    } else {
        let t = st.toks[0];
        let st1 = consume_one(st);
        if t is Symbol && t->Symbol_0 is ClosingBracket {
            (Ok(()), st1)
        } else {
            (Err(ParserError::ExpectedClosingBracket), st1)
        }
    }
}

/// The machine step for a required comma.
pub open spec fn sp_comma(st: PState) -> (Result<(), ParserError>, PState)
    decreases st.toks.len(), 0int, 0int,
{
    if st.toks.len() == 0 {
        (Err(ParserError::ExpectedComma), PState { curr: st.curr + 1, ..st })
    } else {
        let t = st.toks[0];
        let st1 = consume_one(st);
        if t is Symbol && t->Symbol_0 is Comma {
            (Ok(()), st1)
        } else {
            (Err(ParserError::ExpectedComma), st1)
        }
    }
}

/// The machine step for a right-hand side or parameter: the returning flag
/// is lowered for the recursive parse and raised again after it succeeds.
pub open spec fn sp_non_returning(st: PState) -> (Result<ExprModel, ParserError>, PState)
    decreases st.toks.len(), 6int, 0int,
{
    let st1 = PState { returning: false, ..st };
    let (r, st2) = sp_expression(st1);
    match r {
        Err(p) => (Err(p), st2),
        Ok(e) => (Ok(e), PState { returning: true, ..st2 }),
    }
}

/// The machine step for a parameter list: the first parameter, then a comma
/// and a parameter for each remaining slot of the arity.
pub open spec fn sp_params(st: PState, hf: HigherOrderFunc) -> (Result<Seq<ExprModel>, ParserError>, PState)
    decreases st.toks.len(), 8int, 0int,
{
    let (r1, st1) = sp_non_returning(st);
    match r1 {
        Err(p) => (Err(p), st1),
        Ok(e1) => {
            if stored_params(hf) > 1 {
                if st1.toks.len() > st.toks.len() {
                    (Err(ParserError::ExpressionEmpty), st1)
                } else {
                    let (r2, st2) = sp_param_rest(st1, stored_params(hf) - 1);
                    match r2 {
                        Err(p) => (Err(p), st2),
                        Ok(rest) => (Ok(seq![e1] + rest), st2),
                    }
                }
            } else {
                (Ok(seq![e1]), st1)
            }
        },
    }
}

/// The machine step for the remaining parameters: `n` more commas, each
/// followed by a parameter.
pub open spec fn sp_param_rest(st: PState, n: int) -> (Result<Seq<ExprModel>, ParserError>, PState)
    decreases st.toks.len(), 7int, n,
{
    if n <= 0 {
        (Ok(Seq::<ExprModel>::empty()), st)
    } else {
        let (r1, st1) = sp_comma(st);
        if r1 is Err {
            (Err(r1->Err_0), st1)
        } else if st1.toks.len() > st.toks.len() {
            (Err(ParserError::ExpressionEmpty), st1)
        } else {
            let (r2, st2) = sp_non_returning(st1);
            match r2 {
                Err(p) => (Err(p), st2),
                Ok(e) => {
                    if st2.toks.len() <= st.toks.len() {
                        let (r3, st3) = sp_param_rest(st2, n - 1);
                        match r3 {
                            Err(p) => (Err(p), st3),
                            Ok(rest) => (Ok(seq![e] + rest), st3),
                        }
                    } else {
                        (Err(ParserError::ExpressionEmpty), st2)
                    }
                },
            }
        }
    }
}

/// The machine step for a bracketed expression: the matching closing
/// bracket is located first and recorded as a boundary, and the interior is
/// parsed up to it.
pub open spec fn sp_bracketed(st: PState) -> (Result<ExprModel, ParserError>, PState)
    decreases st.toks.len(), 4int, 0int,
{
    let (r1, st1) = sp_opening_bracket(st);
    if r1 is Err {
        (Err(r1->Err_0), st1)
    } else {
        if st1.toks.len() >= st.toks.len() {
            (Err(ParserError::ExpressionEmpty), st1)
        } else {
            match matching_bracket(st1.toks, 0, 1) {
                None => (Err(ParserError::ExpectedClosingBracket), st1),
                Some(idx) => {
                    let st2 = PState { ends: seq![idx + st1.curr] + st1.ends, ..st1 };
                    let (r2, st3) = sp_expression_until(st2);
                    match r2 {
                        Err(p) => (Err(p), st3),
                        Ok(inner) => {
                            if st3.toks.len() > st.toks.len() {
                                (Err(ParserError::ExpressionEmpty), st3)
                            } else {
                                let st4 = PState {
                                    ends: if st3.ends.len() > 0 {
                                        st3.ends.drop_first()
                                    } else {
                                        st3.ends
                                    },
                                    ..st3
                                };
                                let (r3, st5) = sp_closing_bracket(st4);
                                if r3 is Err {
                                    (Err(r3->Err_0), st5)
                                } else {
                                    (Ok(ExprModel::Bracketed(Box::new(inner))), st5)
                                }
                            }
                        },
                    }
                },
            }
        }
    }
}

/// The machine step for an expression in returning mode: a primary, then
/// either an infix continuation with the primary as deferred left-hand
/// side, or — outside every bracket — a demand for one.
pub open spec fn sp_expression(st: PState) -> (Result<ExprModel, ParserError>, PState)
    decreases st.toks.len(), 5int, 0int,
{
    if st.toks.len() == 0 {
        (Err(ParserError::ExpressionEmpty), st)
    } else {
        let (r, st1) = if st.toks[0] is Symbol && st.toks[0]->Symbol_0 is OpeningBracket {
            sp_bracketed(st)
        } else {
            sp_math(st)
        };
        match r {
            Err(p) => (Err(p), st1),
            Ok(e) => {
                if st1.toks.len() > 0 && st1.returning {
                    if st1.toks[0] is Function && st1.toks[0]->Function_0 is Elementary {
                        if st1.toks.len() < st.toks.len() {
                            sp_expression(PState { lhs: seq![e] + st1.lhs, ..st1 })
                        } else {
                            (Err(ParserError::ExpressionEmpty), st1)
                        }
                    } else if st1.ends.len() == 0 {
                        (Err(ParserError::ExpectedElementaryFunction), st1)
                    } else {
                        (Ok(e), st1)
                    }
                } else {
                    (Ok(e), st1)
                }
            },
        }
    }
}

/// The machine step for an expression inside a bracket: primaries chained
/// by infix operators until the recorded boundary is reached.
pub open spec fn sp_expression_until(st: PState) -> (Result<ExprModel, ParserError>, PState)
    decreases st.toks.len(), 5int, 0int,
{
    if st.toks.len() == 0 {
        (Err(ParserError::ExpressionEmpty), st)
    } else {
        let (r, st1) = if st.toks[0] is Symbol && st.toks[0]->Symbol_0 is OpeningBracket {
            sp_bracketed(st)
        } else {
            sp_math(st)
        };
        match r {
            Err(p) => (Err(p), st1),
            Ok(e) => {
                if st1.ends.len() == 0 {
                    (Err(ParserError::ExpressionEmpty), st1)
                } else {
                    let end = st1.ends[0];
                    if st1.curr < end && st1.toks.len() > 0 {
                        let st2 = PState { lhs: seq![e] + st1.lhs, ..st1 };
                        if st2.toks[0] is Function && st2.toks[0]->Function_0 is Elementary {
                            if st1.toks.len() < st.toks.len() {
                                sp_expression_until(st2)
                            } else {
                                (Err(ParserError::ExpressionEmpty), st2)
                            }
                        } else {
                            (Err(ParserError::ExpectedElementaryFunction), st2)
                        }
                    } else {
                        (Ok(e), st1)
                    }
                }
            },
        }
    }
}

/// The machine for a whole line: nothing, or one expression.
pub open spec fn sp_start(st: PState) -> (Result<StartModel, ParserError>, PState) {
    if st.toks.len() == 0 {
        (Ok(StartModel::Empty), st)
    } else {
        let (r, st1) = sp_expression(st);
        match r {
            Err(p) => (Err(p), st1),
            Ok(e) => (Ok(StartModel::Expression(e)), st1),
        }
    }
}

/// The initial machine state for a token sequence.
pub open spec fn init_state(toks: Seq<Token>) -> PState {
    PState { toks: toks, lhs: Seq::empty(), ends: Seq::empty(), returning: true, curr: 0 }
}

/// What parsing a token sequence yields.
pub open spec fn spec_parse(toks: Seq<Token>) -> Result<StartModel, ParserError> {
    sp_start(init_state(toks)).0
}

/// The images of the deferred left-hand sides (the stack top first).
pub open spec fn lhs_models(v: Seq<Expression>) -> Seq<ExprModel> {
    v.map_values(|e: Expression| expr_model(e)).reverse()
}

/// The images of the bracket boundaries (the stack top first).
pub open spec fn ends_models(v: Seq<usize>) -> Seq<int> {
    v.map_values(|u: usize| u as int).reverse()
}

/// The machine state that a parser value stands for.
spec fn pstate_of(p: Parser) -> PState {
    PState {
        toks: p.tokens@,
        lhs: lhs_models(p.lhs_queue@),
        ends: ends_models(p.expression_ends_queue@),
        returning: p.returning,
        curr: p.curr_idx as int,
    }
}

pub open spec fn expr_result(r: Result<Expression, ParserError>) -> Result<ExprModel, ParserError> {
    match r {
        Ok(e) => Ok(expr_model(e)),
        Err(p) => Err(p),
    }
}

pub open spec fn math_result(r: Result<MathExpression, ParserError>) -> Result<ExprModel, ParserError> {
    match r {
        Ok(m) => Ok(math_model(m)),
        Err(p) => Err(p),
    }
}

pub open spec fn func_result(r: Result<Function, ParserError>) -> Result<ExprModel, ParserError> {
    match r {
        Ok(f) => Ok(func_model(f)),
        Err(p) => Err(p),
    }
}

pub open spec fn elem_result(r: Result<ElementaryFunction, ParserError>) -> Result<ExprModel, ParserError> {
    match r {
        Ok(f) => Ok(func_model(Function::ElementaryFunction(f))),
        Err(p) => Err(p),
    }
}

pub open spec fn higher_result(r: Result<HigherOrderFunction, ParserError>) -> Result<ExprModel, ParserError> {
    match r {
        Ok(f) => Ok(func_model(Function::HigherOrderFunction(f))),
        Err(p) => Err(p),
    }
}

pub open spec fn bracket_result(r: Result<BracketedExpression, ParserError>) -> Result<ExprModel, ParserError> {
    match r {
        Ok(b) => Ok(ExprModel::Bracketed(Box::new(expr_model(b.expression)))),
        Err(p) => Err(p),
    }
}

pub open spec fn params_result(r: Result<Params, ParserError>) -> Result<Seq<ExprModel>, ParserError> {
    match r {
        Ok(p) => Ok(params_model(p)),
        Err(p) => Err(p),
    }
}

pub open spec fn ob_result(r: Result<OpeningBracket, ParserError>) -> Result<(), ParserError> {
    match r {
        Ok(_) => Ok(()),
        Err(p) => Err(p),
    }
}

pub open spec fn cb_result(r: Result<ClosingBracket, ParserError>) -> Result<(), ParserError> {
    match r {
        Ok(_) => Ok(()),
        Err(p) => Err(p),
    }
}

pub open spec fn comma_result(r: Result<Comma, ParserError>) -> Result<(), ParserError> {
    match r {
        Ok(_) => Ok(()),
        Err(p) => Err(p),
    }
}

pub open spec fn start_result(r: Result<Start, ParserError>) -> Result<StartModel, ParserError> {
    match r {
        Ok(s) => Ok(start_model(s)),
        Err(p) => Err(p),
    }
}

/// The recursive-descent parser over one token sequence.
pub struct Parser {
    tokens: Vec<Token>,
    lhs_queue: Vec<Expression>,
    expression_ends_queue: Vec<usize>,
    returning: bool,
    curr_idx: usize,
}

impl Parser {
    fn from(tokens: Vec<Token>) -> (p: Parser)
        ensures
            pstate_of(p) == init_state(tokens@),
    {
        let p = Parser {
            tokens,
            lhs_queue: Vec::new(),
            expression_ends_queue: Vec::new(),
            returning: true,
            curr_idx: 0,
        };
        proof {
            assert(lhs_models(p.lhs_queue@) =~= Seq::<ExprModel>::empty());
            assert(ends_models(p.expression_ends_queue@) =~= Seq::<int>::empty());
            assert(pstate_of(p) =~= init_state(p.tokens@));
        }
        p
    }

    /// Consumes and returns the next token, advancing the consumption
    /// count either way.
    fn pop(&mut self) -> (r: Option<Token>)
        requires
            old(self).curr_idx + old(self).tokens@.len() < usize::MAX,
        ensures
            final(self).lhs_queue == old(self).lhs_queue,
            final(self).expression_ends_queue == old(self).expression_ends_queue,
            final(self).returning == old(self).returning,
            final(self).curr_idx == old(self).curr_idx + 1,
            old(self).tokens@.len() == 0 ==> r is None && final(self).tokens == old(self).tokens,
            old(self).tokens@.len() > 0 ==> r == Some(old(self).tokens@[0]) && final(self).tokens@ == old(
                self,
            ).tokens@.drop_first(),
    {
        self.curr_idx = self.curr_idx + 1;
        if self.tokens.len() > 0 {
            let t = self.tokens.remove(0);
            proof {
                assert(self.tokens@ =~= old(self).tokens@.drop_first());
            }
            Some(t)
        } else {
            None
        }
    }

    fn opening_bracket(&mut self) -> (r: Result<OpeningBracket, ParserError>)
        requires
            old(self).curr_idx + old(self).tokens@.len() < usize::MAX,
        ensures
            sp_opening_bracket(pstate_of(*old(self))) == (ob_result(r), pstate_of(*final(self))),
            final(self).tokens@.len() <= old(self).tokens@.len(),
            r is Ok ==> final(self).tokens@.len() < old(self).tokens@.len() && final(self).curr_idx
                + final(self).tokens@.len() == old(self).curr_idx + old(self).tokens@.len(),
        decreases self.tokens@.len(), 0int, 0int,
    {
        let r = match self.pop() {
            Some(token) => match token {
                Token::Symbol(Symbol::OpeningBracket) => Ok(OpeningBracket),
                _ => Err(ParserError::ExpectedOpeningBracket),
            },
            None => Err(ParserError::ExpressionEmpty),
        };
        proof {
            if old(self).tokens@.len() == 0 {
                assert(pstate_of(*self) =~= (PState { curr: pstate_of(*old(self)).curr + 1, ..pstate_of(*old(self)) }));
            } else {
                assert(pstate_of(*self) =~= consume_one(pstate_of(*old(self))));
            }
        }
        r
    }

    fn closing_bracket(&mut self) -> (r: Result<ClosingBracket, ParserError>)
        requires
            old(self).curr_idx + old(self).tokens@.len() < usize::MAX,
        ensures
            sp_closing_bracket(pstate_of(*old(self))) == (cb_result(r), pstate_of(*final(self))),
            final(self).tokens@.len() <= old(self).tokens@.len(),
            r is Ok ==> final(self).tokens@.len() < old(self).tokens@.len() && final(self).curr_idx
                + final(self).tokens@.len() == old(self).curr_idx + old(self).tokens@.len(),
        decreases self.tokens@.len(), 0int, 0int,
    {
        let r = match self.pop() {
            Some(token) => match token {
                Token::Symbol(Symbol::ClosingBracket) => Ok(ClosingBracket),
                _ => Err(ParserError::ExpectedClosingBracket),
            },
            None => Err(ParserError::ExpressionEmpty),
        };
        proof {
            if old(self).tokens@.len() == 0 {
                assert(pstate_of(*self) =~= (PState { curr: pstate_of(*old(self)).curr + 1, ..pstate_of(*old(self)) }));
            } else {
                assert(pstate_of(*self) =~= consume_one(pstate_of(*old(self))));
            }
        }
        r
    }

    fn comma(&mut self) -> (r: Result<Comma, ParserError>)
        requires
            old(self).curr_idx + old(self).tokens@.len() < usize::MAX,
        ensures
            sp_comma(pstate_of(*old(self))) == (comma_result(r), pstate_of(*final(self))),
            final(self).tokens@.len() <= old(self).tokens@.len(),
            r is Ok ==> final(self).tokens@.len() < old(self).tokens@.len() && final(self).curr_idx
                + final(self).tokens@.len() == old(self).curr_idx + old(self).tokens@.len(),
        decreases self.tokens@.len(), 0int, 0int,
    {
        let r = match self.pop() {
            Some(token) => match token {
                Token::Symbol(Symbol::Comma) => Ok(Comma),
                _ => Err(ParserError::ExpectedComma),
            },
            None => Err(ParserError::ExpectedComma),
        };
        proof {
            if old(self).tokens@.len() == 0 {
                assert(pstate_of(*self) =~= (PState { curr: pstate_of(*old(self)).curr + 1, ..pstate_of(*old(self)) }));
            } else {
                assert(pstate_of(*self) =~= consume_one(pstate_of(*old(self))));
            }
        }
        r
    }

    fn math_expression(&mut self) -> (r: Result<MathExpression, ParserError>)
        requires
            old(self).curr_idx + old(self).tokens@.len() < usize::MAX,
        ensures
            sp_math(pstate_of(*old(self))) == (math_result(r), pstate_of(*final(self))),
            final(self).tokens@.len() <= old(self).tokens@.len(),
            r is Ok ==> final(self).tokens@.len() < old(self).tokens@.len() && final(self).curr_idx
                + final(self).tokens@.len() == old(self).curr_idx + old(self).tokens@.len(),
        decreases self.tokens@.len(), 3int, 0int,
    {
        match self.pop() {
            Some(token) => {
                proof {
                    assert(pstate_of(*self) =~= consume_one(pstate_of(*old(self))));
                }
                match token {
                    Token::Number(num) => Ok(MathExpression::Number(num)),
                    Token::Variable(var) => Ok(MathExpression::Variable(var)),
                    Token::Function(func) => match self.function(func) {
                        Ok(f) => Ok(MathExpression::Function(f)),
                        Err(p) => Err(p),
                    },
                    _ => Err(ParserError::ExpectedMathExpression),
                }
            },
            None => {
                proof {
                    assert(pstate_of(*self) =~= (PState { curr: pstate_of(*old(self)).curr + 1, ..pstate_of(
                        *old(self),
                    ) }));
                }
                Err(ParserError::ExpressionEmpty)
            },
        }
    }

    fn function(&mut self, function: Func) -> (r: Result<Function, ParserError>)
        requires
            old(self).curr_idx + old(self).tokens@.len() < usize::MAX,
        ensures
            sp_function(pstate_of(*old(self)), function) == (func_result(r), pstate_of(*final(self))),
            final(self).tokens@.len() <= old(self).tokens@.len(),
            r is Ok ==> final(self).tokens@.len() < old(self).tokens@.len() && final(self).curr_idx
                + final(self).tokens@.len() == old(self).curr_idx + old(self).tokens@.len(),
        decreases self.tokens@.len(), 10int, 0int,
    {
        match function {
            Func::Elementary(func) => match self.elementary_function(func) {
                Ok(f) => Ok(Function::ElementaryFunction(f)),
                Err(p) => Err(p),
            },
            Func::HigherOrder(func) => match self.higher_order_function(func) {
                Ok(f) => Ok(Function::HigherOrderFunction(f)),
                Err(p) => Err(p),
            },
        }
    }

    fn elementary_function(&mut self, function: ElementaryFunc) -> (r: Result<ElementaryFunction, ParserError>)
        requires
            old(self).curr_idx + old(self).tokens@.len() < usize::MAX,
        ensures
            sp_elementary(pstate_of(*old(self)), function) == (elem_result(r), pstate_of(*final(self))),
            final(self).tokens@.len() <= old(self).tokens@.len(),
            r is Ok ==> final(self).tokens@.len() < old(self).tokens@.len() && final(self).curr_idx
                + final(self).tokens@.len() == old(self).curr_idx + old(self).tokens@.len(),
        decreases self.tokens@.len(), 9int, 0int,
    {
        match self.lhs_queue.pop() {
            Some(expression_lhs) => {
                proof {
                    assert(lhs_models(self.lhs_queue@) =~= lhs_models(old(self).lhs_queue@).drop_first());
                    assert(expr_model(expression_lhs) == lhs_models(old(self).lhs_queue@)[0]);
                    assert(pstate_of(*self) =~= (PState { lhs: pstate_of(*old(self)).lhs.drop_first(), ..pstate_of(
                        *old(self),
                    ) }));
                }
                match self.non_returning_expression() {
                    Ok(expression_rhs) => Ok(ElementaryFunction { expression_lhs, function, expression_rhs }),
                    Err(p) => Err(p),
                }
            },
            None => {
                proof {
                    assert(lhs_models(old(self).lhs_queue@).len() == 0);
                }
                Err(ParserError::NoLhsExpressionProvided)
            },
        }
    }

    fn higher_order_function(&mut self, function: HigherOrderFunc) -> (r: Result<HigherOrderFunction, ParserError>)
        requires
            old(self).curr_idx + old(self).tokens@.len() < usize::MAX,
        ensures
            sp_higher(pstate_of(*old(self)), function) == (higher_result(r), pstate_of(*final(self))),
            final(self).tokens@.len() <= old(self).tokens@.len(),
            r is Ok ==> final(self).tokens@.len() < old(self).tokens@.len() && final(self).curr_idx
                + final(self).tokens@.len() == old(self).curr_idx + old(self).tokens@.len(),
        decreases self.tokens@.len(), 9int, 0int,
    {
        let opening_bracket = match self.opening_bracket() {
            Ok(b) => b,
            Err(p) => {
                return Err(p);
            },
        };
        let params = match self.params(&function) {
            Ok(ps) => ps,
            Err(p) => {
                return Err(p);
            },
        };
        let closing_bracket = match self.closing_bracket() {
            Ok(b) => b,
            Err(p) => {
                return Err(p);
            },
        };
        Ok(HigherOrderFunction { function, opening_bracket, params, closing_bracket })
    }

    fn non_returning_expression(&mut self) -> (r: Result<Expression, ParserError>)
        requires
            old(self).curr_idx + old(self).tokens@.len() < usize::MAX,
        ensures
            sp_non_returning(pstate_of(*old(self))) == (expr_result(r), pstate_of(*final(self))),
            final(self).tokens@.len() <= old(self).tokens@.len(),
            r is Ok ==> final(self).tokens@.len() < old(self).tokens@.len() && final(self).curr_idx
                + final(self).tokens@.len() == old(self).curr_idx + old(self).tokens@.len(),
        decreases self.tokens@.len(), 6int, 0int,
    {
        self.returning = false;
        proof {
            assert(pstate_of(*self) =~= (PState { returning: false, ..pstate_of(*old(self)) }));
        }
        let expression = match self.expression() {
            Ok(e) => e,
            Err(p) => {
                return Err(p);
            },
        };
        self.returning = true;
        proof {
            assert(pstate_of(*self) =~= (PState { returning: true, ..sp_non_returning(pstate_of(*old(self))).1 }));
            assert(pstate_of(*self) =~= sp_non_returning(pstate_of(*old(self))).1);
        }
        Ok(expression)
    }

    #[verifier::loop_isolation(false)]
    fn params(&mut self, function_type: &HigherOrderFunc) -> (r: Result<Params, ParserError>)
        requires
            old(self).curr_idx + old(self).tokens@.len() < usize::MAX,
        ensures
            sp_params(pstate_of(*old(self)), *function_type) == (params_result(r), pstate_of(*final(self))),
            final(self).tokens@.len() <= old(self).tokens@.len(),
            r is Ok ==> final(self).tokens@.len() < old(self).tokens@.len() && final(self).curr_idx
                + final(self).tokens@.len() == old(self).curr_idx + old(self).tokens@.len(),
        decreases self.tokens@.len(), 8int, 0int,
    {
        let param_count_ref = function_type.get_param_count();
        proof {
            assert(*param_count_ref == stored_params(*function_type));
        }
        let param_count = *param_count_ref;

        let expression = match self.non_returning_expression() {
            Ok(e) => e,
            Err(p) => {
                return Err(p);
            },
        };

        if param_count > 1 {
            let ghost st1 = pstate_of(*self);
            let ghost entry_sum = self.curr_idx + self.tokens@.len();
            let ghost entry_len = self.tokens@.len();
            proof {
                assert(entry_len < old(self).tokens@.len());
                let r0 = sp_param_rest(st1, param_count - 1);
                if r0.0 is Ok {
                    assert(comma_models_v(Seq::<(Comma, Expression)>::empty()) + r0.0->Ok_0 =~= r0.0->Ok_0);
                }
            }
            let mut expression_comma: Vec<(Comma, Expression)> = Vec::new();

            let mut k: u8 = 1;
            while k < param_count
                invariant
                    1 <= k <= param_count,
                    self.curr_idx + self.tokens@.len() == entry_sum,
                    entry_sum < usize::MAX,
                    self.tokens@.len() <= entry_len,
                    entry_len < old(self).tokens@.len(),
                    sp_param_rest(st1, param_count - 1) == (match sp_param_rest(pstate_of(*self), param_count - k) {
                        (Ok(rest), stf) => (
                            Ok::<Seq<ExprModel>, ParserError>(comma_models_v(expression_comma@) + rest),
                            stf,
                        ),
                        (Err(p), stf) => (Err::<Seq<ExprModel>, ParserError>(p), stf),
                    }),
                decreases param_count - k,
            {
                let ghost loop_st = pstate_of(*self);
                let ghost m = param_count - k as int;
                let ghost prefix = comma_models_v(expression_comma@);
                let comma = match self.comma() {
                    Ok(c) => c,
                    Err(p) => {
                        proof {
                            lemma_sp_param_rest_err(loop_st, m, p, pstate_of(*self));
                            assert(sp_param_rest(st1, param_count - 1) == (
                                Err::<Seq<ExprModel>, ParserError>(p),
                                pstate_of(*self),
                            ));
                            assert(stored_params(*function_type) == param_count);
                            assert(sp_non_returning(pstate_of(*old(self))).0 == Ok::<ExprModel, ParserError>(
                                expr_model(expression),
                            ));
                            assert(sp_non_returning(pstate_of(*old(self))).1 == st1);
                            assert(!(st1.toks.len() > pstate_of(*old(self)).toks.len()));
                            assert(sp_params(pstate_of(*old(self)), *function_type) == (
                                Err::<Seq<ExprModel>, ParserError>(p),
                                pstate_of(*self),
                            ));
                        }
                        return Err(p);
                    },
                };
                let expression2 = match self.non_returning_expression() {
                    Ok(e) => e,
                    Err(p) => {
                        proof {
                            assert(sp_param_rest(loop_st, m) == (
                                Err::<Seq<ExprModel>, ParserError>(p),
                                pstate_of(*self),
                            ));
                            assert(sp_param_rest(st1, param_count - 1) == (
                                Err::<Seq<ExprModel>, ParserError>(p),
                                pstate_of(*self),
                            ));
                            assert(sp_non_returning(pstate_of(*old(self))).1 == st1);
                            assert(!(st1.toks.len() > pstate_of(*old(self)).toks.len()));
                            assert(sp_params(pstate_of(*old(self)), *function_type) == (
                                Err::<Seq<ExprModel>, ParserError>(p),
                                pstate_of(*self),
                            ));
                        }
                        return Err(p);
                    },
                };
                let ghost st_e = pstate_of(*self);
                proof {
                    assert(sp_param_rest(loop_st, m) == (match sp_param_rest(st_e, m - 1) {
                        (Ok(rest), stf) => (
                            Ok::<Seq<ExprModel>, ParserError>(seq![expr_model(expression2)] + rest),
                            stf,
                        ),
                        (Err(p2), stf) => (Err::<Seq<ExprModel>, ParserError>(p2), stf),
                    }));
                }
                let ghost ec0 = expression_comma@;
                expression_comma.push((comma, expression2));
                proof {
                    assert(expression_comma@ == ec0.push((comma, expression2)));
                    assert(expression_comma@.drop_last() =~= ec0);
                    assert(expression_comma@.last() == (comma, expression2));
                    assert(comma_models_v(expression_comma@) == comma_models_v(expression_comma@.drop_last()).push(
                        expr_model(expression_comma@.last().1),
                    ));
                    assert(comma_models_v(expression_comma@) =~= prefix.push(expr_model(expression2)));
                    let rr = sp_param_rest(st_e, m - 1);
                    if rr.0 is Ok {
                        assert(prefix + (seq![expr_model(expression2)] + rr.0->Ok_0) =~= comma_models_v(
                            expression_comma@,
                        ) + rr.0->Ok_0);
                    }
                }
                k = k + 1;
            }
            let ghost stf = pstate_of(*self);
            proof {
                assert(sp_param_rest(stf, 0int) == (
                    Ok::<Seq<ExprModel>, ParserError>(Seq::<ExprModel>::empty()),
                    stf,
                ));
                assert(comma_models_v(expression_comma@) + Seq::<ExprModel>::empty() =~= comma_models_v(
                    expression_comma@,
                ));
                assert(sp_param_rest(st1, param_count - 1) == (
                    Ok::<Seq<ExprModel>, ParserError>(comma_models_v(expression_comma@)),
                    stf,
                ));
            }
            let r = Params::new(expression, Some(expression_comma));
            proof {
                lemma_comma_bridge(r.expression_comma->Some_0, 0);
                assert(r.expression_comma->Some_0@.skip(0) =~= r.expression_comma->Some_0@);
                assert(comma_models(r.expression_comma->Some_0, 0) == comma_models_v(expression_comma@));
                assert(params_model(r) =~= seq![expr_model(expression)] + comma_models_v(expression_comma@));
                assert(sp_params(pstate_of(*old(self)), *function_type) == (
                    Ok::<Seq<ExprModel>, ParserError>(params_model(r)),
                    stf,
                ));
            }
            return Ok(r);
        }

        let r = Params::new(expression, None);
        proof {
            assert(params_model(r) =~= seq![expr_model(expression)]);
        }
        Ok(r)
    }

    #[verifier::loop_isolation(false)]
    fn bracketed_expression(&mut self) -> (r: Result<BracketedExpression, ParserError>)
        requires
            old(self).curr_idx + old(self).tokens@.len() < usize::MAX,
        ensures
            sp_bracketed(pstate_of(*old(self))) == (bracket_result(r), pstate_of(*final(self))),
            final(self).tokens@.len() <= old(self).tokens@.len(),
            r is Ok ==> final(self).tokens@.len() < old(self).tokens@.len() && final(self).curr_idx
                + final(self).tokens@.len() == old(self).curr_idx + old(self).tokens@.len(),
        decreases self.tokens@.len(), 4int, 0int,
    {
        let opening_bracket = match self.opening_bracket() {
            Ok(b) => b,
            Err(p) => {
                proof {
                    assert(sp_opening_bracket(pstate_of(*old(self))).0 == Err::<(), ParserError>(p));
                    assert(sp_bracketed(pstate_of(*old(self))) == (
                        Err::<ExprModel, ParserError>(p),
                        pstate_of(*self),
                    ));
                }
                return Err(p);
            },
        };

        let mut idx: usize = 0;
        let mut opening_brackets: usize = 1;
        let mut done = false;

        while !done
            invariant
                idx <= self.tokens@.len(),
                opening_brackets >= 1,
                opening_brackets <= 1 + idx,
                !done ==> matching_bracket(self.tokens@, 0, 1) == matching_bracket(
                    self.tokens@,
                    idx as int,
                    opening_brackets as int,
                ),
                done ==> idx < self.tokens@.len() && matching_bracket(self.tokens@, 0, 1) == Some(idx as int),
            decreases self.tokens@.len() - idx, (if done {
                0int
            } else {
                1int
            }),
        {
            if idx < self.tokens.len() {
                let d: usize = match &self.tokens[idx] {
                    Token::Symbol(Symbol::OpeningBracket) => opening_brackets + 1,
                    Token::Symbol(Symbol::ClosingBracket) => opening_brackets - 1,
                    _ => opening_brackets,
                };
                if d == 0 {
                    done = true;
                } else {
                    opening_brackets = d;
                    idx = idx + 1;
                }
            } else {
                proof {
                    assert(matching_bracket(self.tokens@, idx as int, opening_brackets as int) is None);
                    assert(matching_bracket(pstate_of(*self).toks, 0, 1) is None);
                    assert(sp_bracketed(pstate_of(*old(self))) == (
                        Err::<ExprModel, ParserError>(ParserError::ExpectedClosingBracket),
                        pstate_of(*self),
                    ));
                }
                return Err(ParserError::ExpectedClosingBracket);
            }
        }

        let ghost mid = pstate_of(*self);
        proof {
            assert(idx < self.tokens@.len());
            assert(self.curr_idx + self.tokens@.len() < usize::MAX);
        }
        self.expression_ends_queue.push(idx + self.curr_idx);
        proof {
            assert(ends_models(self.expression_ends_queue@) =~= seq![(idx + self.curr_idx) as int] + mid.ends);
            assert(pstate_of(*self) =~= (PState { ends: seq![idx as int + mid.curr] + mid.ends, ..mid }));
        }

        let ghost st2g = pstate_of(*self);
        let expression = match self.expression_until() {
            Ok(e) => e,
            Err(p) => {
                proof {
                    assert(sp_expression_until(st2g) == (Err::<ExprModel, ParserError>(p), pstate_of(*self)));
                    assert(sp_bracketed(pstate_of(*old(self))) == (
                        Err::<ExprModel, ParserError>(p),
                        pstate_of(*self),
                    ));
                }
                return Err(p);
            },
        };

        let ghost st3 = pstate_of(*self);
        let ghost q3 = self.expression_ends_queue@;
        let popped = self.expression_ends_queue.pop();
        proof {
            if q3.len() > 0 {
                assert(self.expression_ends_queue@ =~= q3.drop_last());
                assert(ends_models(q3).len() == q3.len());
                assert forall|i: int| 0 <= i < q3.len() - 1 implies ends_models(q3.drop_last())[i] == ends_models(
                    q3,
                ).drop_first()[i] by {
                    assert(ends_models(q3.drop_last())[i] == q3.drop_last()[q3.len() - 2 - i] as int);
                    assert(ends_models(q3).drop_first()[i] == ends_models(q3)[i + 1]);
                    assert(ends_models(q3)[i + 1] == q3[q3.len() - 2 - i] as int);
                }
                assert(ends_models(self.expression_ends_queue@) =~= st3.ends.drop_first());
            } else {
                assert(st3.ends.len() == 0);
                assert(ends_models(self.expression_ends_queue@) =~= st3.ends);
            }
            assert(pstate_of(*self) =~= (PState {
                ends: if st3.ends.len() > 0 {
                    st3.ends.drop_first()
                } else {
                    st3.ends
                },
                ..st3
            }));
        }

        let ghost st4g = pstate_of(*self);
        proof {
            let stm = pstate_of(*old(self));
            assert(sp_opening_bracket(stm).0 == Ok::<(), ParserError>(()));
            let st1m = sp_opening_bracket(stm).1;
            assert(st1m == mid);
            assert(!(st1m.toks.len() >= stm.toks.len()));
            assert(matching_bracket(st1m.toks, 0, 1) == Some(idx as int));
            assert(st2g == (PState { ends: seq![idx + st1m.curr] + st1m.ends, ..st1m }));
            assert(sp_expression_until(st2g).0 == Ok::<ExprModel, ParserError>(expr_model(expression)));
            assert(sp_expression_until(st2g).1 == st3);
            assert(!(st3.toks.len() > stm.toks.len()));
            assert(st4g == (PState {
                ends: if st3.ends.len() > 0 {
                    st3.ends.drop_first()
                } else {
                    st3.ends
                },
                ..st3
            }));
        }
        let closing_bracket = match self.closing_bracket() {
            Ok(b) => b,
            Err(p) => {
                proof {
                    assert(sp_closing_bracket(st4g) == (Err::<(), ParserError>(p), pstate_of(*self)));
                    assert(sp_bracketed(pstate_of(*old(self))) == (
                        Err::<ExprModel, ParserError>(p),
                        pstate_of(*self),
                    )) by {
                        reveal_with_fuel(sp_bracketed, 2);
                    }
                }
                return Err(p);
            },
        };

        proof {
            assert(sp_bracketed(pstate_of(*old(self))) == (
                Ok::<ExprModel, ParserError>(ExprModel::Bracketed(Box::new(expr_model(expression)))),
                pstate_of(*self),
            )) by {
                reveal_with_fuel(sp_bracketed, 2);
            }
        }
        Ok(BracketedExpression { opening_bracket, expression, closing_bracket })
    }

    fn expression(&mut self) -> (r: Result<Expression, ParserError>)
        requires
            old(self).curr_idx + old(self).tokens@.len() < usize::MAX,
        ensures
            sp_expression(pstate_of(*old(self))) == (expr_result(r), pstate_of(*final(self))),
            final(self).tokens@.len() <= old(self).tokens@.len(),
            r is Ok ==> final(self).tokens@.len() < old(self).tokens@.len() && final(self).curr_idx
                + final(self).tokens@.len() == old(self).curr_idx + old(self).tokens@.len(),
        decreases self.tokens@.len(), 5int, 0int,
    {
        if self.tokens.len() == 0 {
            return Err(ParserError::ExpressionEmpty);
        }
        let expression = if matches!(&self.tokens[0], Token::Symbol(Symbol::OpeningBracket)) {
            match self.bracketed_expression() {
                Ok(b) => Expression::BracketedExpression(Box::new(b)),
                Err(p) => {
                    return Err(p);
                },
            }
        } else {
            match self.math_expression() {
                Ok(m) => Expression::MathExpression(Box::new(m)),
                Err(p) => {
                    return Err(p);
                },
            }
        };

        if self.tokens.len() > 0 && self.returning {
            if matches!(&self.tokens[0], Token::Function(Func::Elementary(_))) {
                let ghost before = pstate_of(*self);
                let ghost q0 = self.lhs_queue@;
                let ghost em = expr_model(expression);
                self.lhs_queue.push(expression);
                proof {
                    assert(self.lhs_queue@ == q0.push(self.lhs_queue@.last()));
                    assert(self.lhs_queue@.drop_last() =~= q0);
                    assert(expr_model(self.lhs_queue@.last()) == em);
                    assert(lhs_models(self.lhs_queue@) =~= seq![em] + lhs_models(q0));
                    assert(pstate_of(*self) =~= (PState { lhs: seq![em] + before.lhs, ..before }));
                }
                self.expression()
            } else if self.expression_ends_queue.len() == 0 {
                proof {
                    assert(ends_models(self.expression_ends_queue@).len() == 0);
                }
                Err(ParserError::ExpectedElementaryFunction)
            } else {
                proof {
                    assert(ends_models(self.expression_ends_queue@).len() > 0);
                }
                Ok(expression)
            }
        } else {
            Ok(expression)
        }
    }

    fn expression_until(&mut self) -> (r: Result<Expression, ParserError>)
        requires
            old(self).curr_idx + old(self).tokens@.len() < usize::MAX,
        ensures
            sp_expression_until(pstate_of(*old(self))) == (expr_result(r), pstate_of(*final(self))),
            final(self).tokens@.len() <= old(self).tokens@.len(),
            r is Ok ==> final(self).tokens@.len() < old(self).tokens@.len() && final(self).curr_idx
                + final(self).tokens@.len() == old(self).curr_idx + old(self).tokens@.len(),
        decreases self.tokens@.len(), 5int, 0int,
    {
        if self.tokens.len() == 0 {
            return Err(ParserError::ExpressionEmpty);
        }
        let expression = if matches!(&self.tokens[0], Token::Symbol(Symbol::OpeningBracket)) {
            match self.bracketed_expression() {
                Ok(b) => Expression::BracketedExpression(Box::new(b)),
                Err(p) => {
                    return Err(p);
                },
            }
        } else {
            match self.math_expression() {
                Ok(m) => Expression::MathExpression(Box::new(m)),
                Err(p) => {
                    return Err(p);
                },
            }
        };

        if self.expression_ends_queue.len() == 0 {
            proof {
                assert(ends_models(self.expression_ends_queue@).len() == 0);
            }
            return Err(ParserError::ExpressionEmpty);
        }
        let end = self.expression_ends_queue[self.expression_ends_queue.len() - 1];
        proof {
            assert(ends_models(self.expression_ends_queue@)[0] == end as int);
        }

        if self.curr_idx < end && self.tokens.len() > 0 {
            let ghost before = pstate_of(*self);
            let ghost q0 = self.lhs_queue@;
            let ghost em = expr_model(expression);
            self.lhs_queue.push(expression);
            proof {
                assert(self.lhs_queue@ == q0.push(self.lhs_queue@.last()));
                assert(self.lhs_queue@.drop_last() =~= q0);
                assert(expr_model(self.lhs_queue@.last()) == em);
                assert(lhs_models(self.lhs_queue@) =~= seq![em] + lhs_models(q0));
                assert(pstate_of(*self) =~= (PState { lhs: seq![em] + before.lhs, ..before }));
            }
            if matches!(&self.tokens[0], Token::Function(Func::Elementary(_))) {
                self.expression_until()
            } else {
                Err(ParserError::ExpectedElementaryFunction)
            }
        } else {
            Ok(expression)
        }
    }

    fn start(&mut self) -> (r: Result<Start, ParserError>)
        requires
            old(self).curr_idx + old(self).tokens@.len() < usize::MAX,
        ensures
            sp_start(pstate_of(*old(self))) == (start_result(r), pstate_of(*final(self))),
    {
        if self.tokens.len() == 0 {
            Ok(Start::Empty)
        } else {
            match self.expression() {
                Ok(e) => Ok(Start::Expression(e)),
                Err(p) => Err(p),
            }
        }
    }

    /// Parses one token sequence into an expression tree, stopping at the
    /// first structural fault.
    pub fn parse(tokens: Vec<Token>) -> (r: Result<Start, CLMathError>)
        requires
            tokens@.len() < usize::MAX,
        ensures
            r matches Ok(s) ==> spec_parse(tokens@) == Ok::<StartModel, ParserError>(start_model(s)),
            r matches Err(e) ==> (e matches CLMathError::Parser(p) && spec_parse(tokens@) == Err::<
                StartModel,
                ParserError,
            >(p)),
    {
        let mut parser = Parser::from(tokens);
        match parser.start() {
            Ok(s) => Ok(s),
            Err(p) => Err(CLMathError::Parser(p)),
        }
    }
}

/// The images of the comma-led parameters of a vector.
pub open spec fn comma_models_v(v: Seq<(Comma, Expression)>) -> Seq<ExprModel>
    decreases v.len(),
{
    if v.len() == 0 {
        Seq::<ExprModel>::empty()
    } else {
        comma_models_v(v.drop_last()).push(expr_model(v.last().1))
    }
}

proof fn lemma_cmv_front(s: Seq<(Comma, Expression)>)
    requires
        s.len() > 0,
    ensures
        comma_models_v(s) == seq![expr_model(s[0].1)] + comma_models_v(s.drop_first()),
    decreases s.len(),
{
    if s.len() == 1 {
        assert(s.drop_last() =~= Seq::<(Comma, Expression)>::empty());
        assert(s.drop_first() =~= Seq::<(Comma, Expression)>::empty());
        assert(comma_models_v(s) =~= seq![expr_model(s[0].1)] + comma_models_v(s.drop_first()));
    } else {
        lemma_cmv_front(s.drop_last());
        assert(s.drop_last().drop_first() =~= s.drop_first().drop_last());
        assert(s.drop_last()[0] == s[0]);
        assert(s.drop_first().last() == s.last());
        assert(comma_models_v(s) == comma_models_v(s.drop_last()).push(expr_model(s.last().1)));
        assert(comma_models_v(s) =~= seq![expr_model(s[0].1)] + comma_models_v(s.drop_first()));
    }
}

proof fn lemma_comma_bridge(v: Vec<(Comma, Expression)>, i: int)
    requires
        0 <= i <= v@.len(),
    ensures
        comma_models(v, i) == comma_models_v(v@.skip(i)),
    decreases v@.len() - i,
{
    if i < v@.len() {
        lemma_comma_bridge(v, i + 1);
        lemma_cmv_front(v@.skip(i));
        assert(v@.skip(i).drop_first() =~= v@.skip(i + 1));
        assert(v@.skip(i)[0] == v@[i]);
        assert(comma_models(v, i) =~= comma_models_v(v@.skip(i)));
    } else {
        assert(v@.skip(i) =~= Seq::<(Comma, Expression)>::empty());
        assert(comma_models(v, i) =~= comma_models_v(v@.skip(i)));
    }
}

proof fn lemma_sp_param_rest_err(st: PState, n: int, p: ParserError, stf: PState)
    requires
        n > 0,
        sp_comma(st) == (Err::<(), ParserError>(p), stf),
    ensures
        sp_param_rest(st, n) == (Err::<Seq<ExprModel>, ParserError>(p), stf),
{
}

} // verus!
