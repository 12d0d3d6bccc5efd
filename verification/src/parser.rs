//! The recursive-descent parser.

use vstd::prelude::*;
use crate::ast::{Arithmetic, ArithmeticOp, Boolean, BooleanOp, Statement};
use crate::ast::StatementView;
use crate::grammar::{
    arithmetic_at, arithmetic_chain_at, arithmetic_component_at, arithmetic_operator,
    assignment_at, boolean_at, boolean_chain_at, boolean_component_at, boolean_operator,
    conditional_at, loop_at, missing_at, program_of, remaining, shifted, spanning, statement_at,
    statement_component_at, token_at, Parsed,
};
use crate::lexer::{token_views, Token, TokenView};
use crate::readback::law_program_is_what_is_spelled;
use crate::roundtrip::law_statement_is_read_to_its_end;
use crate::surface::spells_program;

verus! {

/// Why a token sequence is not a program.
#[derive(Debug, PartialEq)]
pub enum ParseError {
    /// The input ended where a production needed another token.
    UnexpectedEnd,
    /// The token starts or continues no alternative of the production.
    UnexpectedToken(Token),
    /// A required token was not there.
    Mismatch { expected: Token, actual: Token },
}

/// The mathematical value of a [`ParseError`].
pub enum ParseErrorView {
    UnexpectedEnd,
    UnexpectedToken(TokenView),
    Mismatch { expected: TokenView, actual: TokenView },
}

impl View for ParseError {
    type V = ParseErrorView;

    open spec fn view(&self) -> ParseErrorView {
        match self {
            ParseError::UnexpectedEnd => ParseErrorView::UnexpectedEnd,
            ParseError::UnexpectedToken(token) => ParseErrorView::UnexpectedToken(token@),
            ParseError::Mismatch { expected, actual } => ParseErrorView::Mismatch {
                expected: expected@,
                actual: actual@,
            },
        }
    }
}

/// A token sequence and the cursor that reads it.
pub struct Parser {
    pub tokens: Vec<Token>,
    pub index: usize,
}

/// Whether a parser that went from `before` to `after` and returned
/// `result` did what the grammar gives as `expected`: the same tree over
/// the tokens between the two cursors, or the same failure.
pub open spec fn delivers<T: View>(
    before: Parser,
    after: Parser,
    result: Result<T, ParseError>,
    expected: Parsed<T::V>,
) -> bool {
    &&& after.tokens == before.tokens
    &&& before.index <= after.index
    &&& match result {
        Ok(tree) => expected == Ok::<(T::V, nat), ParseErrorView>(
            (tree@, (after.index - before.index) as nat),
        ),
        Err(error) => expected == Err::<(T::V, nat), ParseErrorView>(error@),
    }
}

/// The sequence that `lhs` makes with the statement `rest` that follows
/// it: `rest` goes to the end of the pair that `lhs` already is, or makes
/// a pair with it.
spec fn threaded(lhs: StatementView, rest: StatementView) -> StatementView {
    match lhs {
        StatementView::Composision(first, second) => StatementView::Composision(
            first,
            Box::new(StatementView::Composision(second, Box::new(rest))),
        ),
        single => StatementView::Composision(Box::new(single), Box::new(rest)),
    }
}

/// The statement that `lhs` grows to when the input goes on at `at`.
spec fn continued(tokens: Seq<TokenView>, at: int, lhs: StatementView) -> Parsed<
    StatementView,
> {
    if token_at(tokens, at) == Some(TokenView::SemiColon) {
        match statement_at(tokens, at + 1) {
            Err(error) => Err(error),
            Ok((rest, used)) => spanning(threaded(lhs, rest), used + 1),
        }
    } else {
        spanning(lhs, 0)
    }
}

/// A statement component is never a sequence.
proof fn lemma_component_is_single(tokens: Seq<TokenView>, at: int)
    ensures
        statement_component_at(tokens, at) matches Ok((component, _))
            ==> !(component is Composision),
{
}

impl Parser {
    /// The input as a sequence of token values.
    pub open spec fn input(&self) -> Seq<TokenView> {
        token_views(self.tokens@)
    }

    /// The cursor as a position in the input.
    pub open spec fn at(&self) -> int {
        self.index as int
    }

    /// The token under the cursor, which stays where it is.
    pub fn peek(&self) -> (token: Option<Token>)
        ensures
            match token {
                Some(found) => token_at(self.input(), self.at()) == Some(found@),
                None => token_at(self.input(), self.at()).is_none(),
            },
    {
        if self.index < self.tokens.len() {
            Some(self.tokens[self.index].clone())
        } else {
            None
        }
    }

    /// The token under the cursor; the cursor moves past it. At the end
    /// of the input there is none, and the cursor stays.
    pub fn next(&mut self) -> (token: Option<Token>)
        ensures
            final(self).tokens == old(self).tokens,
            match token {
                Some(found) => {
                    &&& token_at(old(self).input(), old(self).at()) == Some(found@)
                    &&& final(self).index == old(self).index + 1
                },
                None => {
                    &&& token_at(old(self).input(), old(self).at()).is_none()
                    &&& final(self).index == old(self).index
                },
            },
    {
        if self.index < self.tokens.len() {
            let token = self.tokens[self.index].clone();
            self.index += 1;
            Some(token)
        } else {
            None
        }
    }

    /// Reads the token under the cursor, which has to be `expected`.
    pub fn expect(&mut self, expected: Token) -> (result: Result<(), ParseError>)
        ensures
            final(self).tokens == old(self).tokens,
            final(self).index == if token_at(old(self).input(), old(self).at()).is_some() {
                old(self).index + 1
            } else {
                old(self).index as int
            },
            match result {
                Ok(_) => missing_at(old(self).input(), old(self).at(), expected@).is_none(),
                Err(error) => missing_at(old(self).input(), old(self).at(), expected@) == Some(
                    error@,
                ),
            },
    {
        match self.next() {
            None => Err(ParseError::UnexpectedEnd),
            Some(actual) => {
                if expected == actual {
                    Ok(())
                } else {
                    Err(ParseError::Mismatch { expected, actual })
                }
            },
        }
    }

    /// The arithmetic operator that `token` stands for.
    pub fn get_arithmetic_operator(&self, token: Token) -> (result: Result<
        ArithmeticOp,
        ParseError,
    >)
        ensures
            match result {
                Ok(op) => arithmetic_operator(token@) == Some(op),
                Err(error) => arithmetic_operator(token@).is_none()
                    && error@ == ParseErrorView::UnexpectedToken(token@),
            },
    {
        match token {
            Token::Add => Ok(ArithmeticOp::Add),
            Token::Sub => Ok(ArithmeticOp::Sub),
            Token::Mul => Ok(ArithmeticOp::Mul),
            other => Err(ParseError::UnexpectedToken(other)),
        }
    }

    /// The boolean operator that `token` stands for.
    pub fn get_boolean_operator(&self, token: Token) -> (result: Result<BooleanOp, ParseError>)
        ensures
            match result {
                Ok(op) => boolean_operator(token@) == Some(op),
                Err(error) => boolean_operator(token@).is_none()
                    && error@ == ParseErrorView::UnexpectedToken(token@),
            },
    {
        match token {
            Token::Eq => Ok(BooleanOp::Eq),
            Token::Lt => Ok(BooleanOp::Lt),
            Token::LEq => Ok(BooleanOp::LEq),
            Token::Gt => Ok(BooleanOp::Gt),
            Token::GEq => Ok(BooleanOp::GEq),
            Token::And => Ok(BooleanOp::And),
            Token::Or => Ok(BooleanOp::Or),
            Token::Not => Ok(BooleanOp::Not),
            other => Err(ParseError::UnexpectedToken(other)),
        }
    }

    /// Reads one operand of an arithmetic expression: a literal, a
    /// variable, or an expression in parentheses.
    pub fn parse_arithmetic_component(&mut self) -> (result: Result<Arithmetic, ParseError>)
        ensures
            delivers(
                *old(self),
                *final(self),
                result,
                arithmetic_component_at(old(self).input(), old(self).at()),
            ),
        decreases remaining(old(self).input(), old(self).at()), 0nat,
    {
        match self.next() {
            None => Err(ParseError::UnexpectedEnd),
            Some(Token::Int(value)) => Ok(Arithmetic::Int(value)),
            Some(Token::Ident(name)) => Ok(Arithmetic::Ident(name)),
            Some(Token::OpenParen) => {
                let inner = self.parse_arithmetic()?;
                self.expect(Token::CloseParen)?;
                Ok(Arithmetic::Paren(Box::new(inner)))
            },
            Some(other) => Err(ParseError::UnexpectedToken(other)),
        }
    }

    /// Reads an arithmetic expression: operands joined by `+`, `-` and
    /// `*`, which all bind alike and group to the left.
    pub fn parse_arithmetic(&mut self) -> (result: Result<Arithmetic, ParseError>)
        ensures
            delivers(
                *old(self),
                *final(self),
                result,
                arithmetic_at(old(self).input(), old(self).at()),
            ),
        decreases remaining(old(self).input(), old(self).at()), 2nat,
    {
        let mut lhs = self.parse_arithmetic_component()?;
        loop
            invariant
                self.tokens == old(self).tokens,
                old(self).index <= self.index,
                arithmetic_at(old(self).input(), old(self).at()) == shifted(
                    arithmetic_chain_at(self.input(), self.at(), lhs@),
                    (self.index - old(self).index) as nat,
                ),
            decreases remaining(self.input(), self.at()),
        {
            match self.peek() {
                Some(token) => match token {
                    Token::Add | Token::Sub | Token::Mul => {
                        self.next();
                        let op = self.get_arithmetic_operator(token)?;
                        let rhs = self.parse_arithmetic_component()?;
                        lhs = Arithmetic::Binary { lhs: Box::new(lhs), op, rhs: Box::new(rhs) };
                    },
                    _ => {
                        return Ok(lhs);
                    },
                },
                None => {
                    return Ok(lhs);
                },
            }
        }
    }

    /// Reads one operand of a boolean expression: a literal, a comparison
    /// of two arithmetic expressions, or an expression in parentheses.
    pub fn parse_boolean_component(&mut self) -> (result: Result<Boolean, ParseError>)
        ensures
            delivers(
                *old(self),
                *final(self),
                result,
                boolean_component_at(old(self).input(), old(self).at()),
            ),
        decreases remaining(old(self).input(), old(self).at()), 3nat,
    {
        match self.peek() {
            None => Err(ParseError::UnexpectedEnd),
            Some(Token::OpenParen) => {
                self.next();
                let inner = self.parse_boolean()?;
                self.expect(Token::CloseParen)?;
                Ok(Boolean::Paren(Box::new(inner)))
            },
            Some(Token::False) => {
                self.next();
                Ok(Boolean::False)
            },
            Some(Token::True) => {
                self.next();
                Ok(Boolean::True)
            },
            Some(_) => {
                let lhs = self.parse_arithmetic()?;
                match self.peek() {
                    None => Err(ParseError::UnexpectedEnd),
                    Some(token) => match token {
                        Token::Eq | Token::Lt | Token::LEq | Token::Gt | Token::GEq => {
                            self.next();
                            let op = self.get_boolean_operator(token)?;
                            let rhs = self.parse_arithmetic()?;
                            Ok(Boolean::Cmp { lhs: Box::new(lhs), op, rhs: Box::new(rhs) })
                        },
                        other => Err(ParseError::UnexpectedToken(other)),
                    },
                }
            },
        }
    }

    /// Reads a boolean expression: operands joined by `&` and `|`, which
    /// bind alike and group to the left.
    pub fn parse_boolean(&mut self) -> (result: Result<Boolean, ParseError>)
        ensures
            delivers(
                *old(self),
                *final(self),
                result,
                boolean_at(old(self).input(), old(self).at()),
            ),
        decreases remaining(old(self).input(), old(self).at()), 5nat,
    {
        let mut lhs = self.parse_boolean_component()?;
        loop
            invariant
                self.tokens == old(self).tokens,
                old(self).index <= self.index,
                boolean_at(old(self).input(), old(self).at()) == shifted(
                    boolean_chain_at(self.input(), self.at(), lhs@),
                    (self.index - old(self).index) as nat,
                ),
            decreases remaining(self.input(), self.at()),
        {
            match self.peek() {
                Some(token) => match token {
                    Token::And | Token::Or => {
                        self.next();
                        let op = self.get_boolean_operator(token)?;
                        let rhs = self.parse_boolean_component()?;
                        lhs = Boolean::Binary { lhs: Box::new(lhs), op, rhs: Box::new(rhs) };
                    },
                    _ => {
                        return Ok(lhs);
                    },
                },
                None => {
                    return Ok(lhs);
                },
            }
        }
    }

    /// Reads the rest of an assignment to `ident`: `:=` and the value.
    pub fn parse_assignment(&mut self, ident: String) -> (result: Result<Statement, ParseError>)
        ensures
            delivers(
                *old(self),
                *final(self),
                result,
                assignment_at(old(self).input(), old(self).at(), ident@),
            ),
    {
        self.expect(Token::Assign)?;
        let value = self.parse_arithmetic()?;
        Ok(Statement::Assignment { ident, value })
    }

    /// Reads the rest of a conditional, after its `if`: the condition,
    /// `then`, one statement component, `else`, one statement component.
    pub fn parse_if(&mut self) -> (result: Result<Statement, ParseError>)
        ensures
            delivers(
                *old(self),
                *final(self),
                result,
                conditional_at(old(self).input(), old(self).at()),
            ),
        decreases remaining(old(self).input(), old(self).at()), 7nat,
    {
        let condition = self.parse_boolean()?;
        self.expect(Token::Then)?;
        let if_branch = Box::new(self.parse_statement_component()?);
        self.expect(Token::Else)?;
        let else_branch = Box::new(self.parse_statement_component()?);
        Ok(Statement::If { condition, if_branch, else_branch })
    }

    /// Reads the rest of a loop, after its `while`: the condition, `do`,
    /// one statement component.
    pub fn parse_while(&mut self) -> (result: Result<Statement, ParseError>)
        ensures
            delivers(
                *old(self),
                *final(self),
                result,
                loop_at(old(self).input(), old(self).at()),
            ),
        decreases remaining(old(self).input(), old(self).at()), 7nat,
    {
        let condition = self.parse_boolean()?;
        self.expect(Token::Do)?;
        let body = Box::new(self.parse_statement_component()?);
        Ok(Statement::While { condition, body })
    }

    /// Reads one statement component: `skip`, an assignment, a
    /// conditional, a loop, or a statement in parentheses.
    pub fn parse_statement_component(&mut self) -> (result: Result<Statement, ParseError>)
        ensures
            delivers(
                *old(self),
                *final(self),
                result,
                statement_component_at(old(self).input(), old(self).at()),
            ),
        decreases remaining(old(self).input(), old(self).at()), 6nat,
    {
        match self.next() {
            None => Err(ParseError::UnexpectedEnd),
            Some(Token::OpenParen) => {
                let statement = self.parse_statement()?;
                self.expect(Token::CloseParen)?;
                Ok(Statement::Paren(Box::new(statement)))
            },
            Some(Token::Skip) => Ok(Statement::Skip),
            Some(Token::If) => self.parse_if(),
            Some(Token::While) => self.parse_while(),
            Some(Token::Ident(ident)) => self.parse_assignment(ident),
            Some(other) => Err(ParseError::UnexpectedToken(other)),
        }
    }

    /// Reads a statement: components joined by `;`, nested to the right,
    /// so that `a ; b ; c` is the pair of `a` with the pair of `b` and `c`.
    /// The cursor stops at the first token that is not part of it.
    pub fn parse_statement(&mut self) -> (result: Result<Statement, ParseError>)
        ensures
            delivers(
                *old(self),
                *final(self),
                result,
                statement_at(old(self).input(), old(self).at()),
            ),
        decreases remaining(old(self).input(), old(self).at()), 8nat,
    {
        let mut lhs = self.parse_statement_component()?;
        proof {
            lemma_component_is_single(old(self).input(), old(self).at());
        }
        loop
            invariant
                self.tokens == old(self).tokens,
                old(self).index <= self.index,
                statement_at(old(self).input(), old(self).at()) == shifted(
                    continued(self.input(), self.at(), lhs@),
                    (self.index - old(self).index) as nat,
                ),
            decreases remaining(self.input(), self.at()),
        {
            match self.peek() {
                Some(Token::SemiColon) => {
                    let ghost before = lhs@;
                    self.next();
                    let ghost resumed = self.at();
                    proof {
                        lemma_component_is_single(self.input(), resumed);
                        law_statement_is_read_to_its_end(self.input(), resumed);
                    }
                    match lhs {
                        Statement::Composision(first, second) => {
                            let ghost first_view = (*first)@;
                            let ghost second_view = (*second)@;
                            let rest = self.parse_statement()?;
                            let ghost rest_view = rest@;
                            let inner = Statement::Composision(second, Box::new(rest));
                            assert(inner@ == StatementView::Composision(
                                Box::new(second_view),
                                Box::new(rest_view),
                            ));
                            lhs = Statement::Composision(first, Box::new(inner));
                            assert(before == StatementView::Composision(
                                Box::new(first_view),
                                Box::new(second_view),
                            ));
                            assert(lhs@ == threaded(before, rest_view));
                        },
                        single => {
                            let second = self.parse_statement_component()?;
                            let ghost second_view = second@;
                            lhs = Statement::Composision(Box::new(single), Box::new(second));
                            assert(!(before is Composision));
                            assert(lhs@ == StatementView::Composision(
                                Box::new(before),
                                Box::new(second_view),
                            ));
                        },
                    }
                },
                _ => {
                    return Ok(lhs);
                },
            }
        }
    }
}

/// Reads the whole of `tokens` as one program.
///
/// The result is the program that the tokens spell, if they spell one,
/// and else the first failure that the grammar meets in them.
pub fn parse(tokens: Vec<Token>) -> (result: Result<Statement, ParseError>)
    ensures
        match result {
            Ok(program) => {
                &&& program_of(token_views(tokens@)) == Ok::<StatementView, ParseErrorView>(
                    program@,
                )
                &&& spells_program(token_views(tokens@), program@)
            },
            Err(error) => {
                &&& program_of(token_views(tokens@)) == Err::<StatementView, ParseErrorView>(
                    error@,
                )
                &&& forall|tree: StatementView| !spells_program(token_views(tokens@), tree)
            },
        },
{
    let ghost input = token_views(tokens@);
    proof {
        assert forall|tree: StatementView| true implies (program_of(input) == Ok::<
            _,
            ParseErrorView,
        >(tree) <==> #[trigger] spells_program(input, tree)) by {
            law_program_is_what_is_spelled(input, tree);
        }
    }
    let mut parser = Parser { tokens, index: 0 };
    let program = parser.parse_statement()?;
    match parser.peek() {
        None => Ok(program),
        Some(extra) => Err(ParseError::UnexpectedToken(extra)),
    }
}

} // verus!
