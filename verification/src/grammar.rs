//! The grammar of the While language, as functions from a token sequence
//! and a position to the tree that starts there.
//!
//! ```text
//! Statement     := StatementComp ( ';' StatementComp )*
//! StatementComp := '(' Statement ')' | 'skip' | 'if' If | 'while' While
//!                | Ident ':=' Arithmetic
//! If            := Boolean 'then' StatementComp 'else' StatementComp
//! While         := Boolean 'do' StatementComp
//! Boolean       := BooleanComp ( ('&'|'|') BooleanComp )*
//! BooleanComp   := '(' Boolean ')' | 'false' | 'true'
//!                | Arithmetic CmpOp Arithmetic
//! Arithmetic    := ArithComp ( ('+'|'-'|'*') ArithComp )*
//! ArithComp     := Int | Ident | '(' Arithmetic ')'
//! CmpOp         := '=' | '<' | '<=' | '>' | '>='
//! ```
//!
//! Operator chains group to the left; a chain of `;` groups to the right.

use vstd::prelude::*;
use crate::ast::{ArithmeticOp, ArithmeticView, BooleanOp, BooleanView, StatementView};
use crate::lexer::TokenView;
use crate::parser::ParseErrorView;

verus! {

/// The outcome of reading one production: the tree and the number of
/// tokens it spans, or the failure that stopped the reading.
pub type Parsed<T> = Result<(T, nat), ParseErrorView>;

/// The number of tokens from position `at` to the end of the input.
pub open spec fn remaining(tokens: Seq<TokenView>, at: int) -> nat {
    if at <= 0 {
        tokens.len()
    } else if at <= tokens.len() {
        (tokens.len() - at) as nat
    } else {
        0
    }
}

/// A tree that spans `used` tokens.
pub open spec fn spanning<T>(tree: T, used: nat) -> Parsed<T> {
    Ok((tree, used))
}

/// The same outcome, with `by` more tokens read before it.
pub open spec fn shifted<T>(parsed: Parsed<T>, by: nat) -> Parsed<T> {
    match parsed {
        Ok((tree, used)) => Ok((tree, used + by)),
        Err(error) => Err(error),
    }
}

/// The token at position `at`, if the input reaches that far.
pub open spec fn token_at(tokens: Seq<TokenView>, at: int) -> Option<TokenView> {
    if 0 <= at < tokens.len() {
        Some(tokens[at])
    } else {
        None
    }
}

/// Why the token `expected` is not at position `at`, or `None` if it is.
pub open spec fn missing_at(tokens: Seq<TokenView>, at: int, expected: TokenView) -> Option<
    ParseErrorView,
> {
    match token_at(tokens, at) {
        None => Some(ParseErrorView::UnexpectedEnd),
        Some(actual) => if actual == expected {
            None
        } else {
            Some(ParseErrorView::Mismatch { expected, actual })
        },
    }
}

/// The arithmetic operator that a token stands for.
pub open spec fn arithmetic_operator(token: TokenView) -> Option<ArithmeticOp> {
    match token {
        TokenView::Add => Some(ArithmeticOp::Add),
        TokenView::Sub => Some(ArithmeticOp::Sub),
        TokenView::Mul => Some(ArithmeticOp::Mul),
        _ => None,
    }
}

/// The boolean operator that a token stands for.
pub open spec fn boolean_operator(token: TokenView) -> Option<BooleanOp> {
    match token {
        TokenView::Eq => Some(BooleanOp::Eq),
        TokenView::Lt => Some(BooleanOp::Lt),
        TokenView::LEq => Some(BooleanOp::LEq),
        TokenView::Gt => Some(BooleanOp::Gt),
        TokenView::GEq => Some(BooleanOp::GEq),
        TokenView::And => Some(BooleanOp::And),
        TokenView::Or => Some(BooleanOp::Or),
        TokenView::Not => Some(BooleanOp::Not),
        _ => None,
    }
}

/// The operator of a token that compares two arithmetic operands.
pub open spec fn comparison_operator(token: TokenView) -> Option<BooleanOp> {
    match token {
        TokenView::Eq | TokenView::Lt | TokenView::LEq | TokenView::Gt | TokenView::GEq => {
            boolean_operator(token)
        },
        _ => None,
    }
}

/// The operator of a token that joins two boolean operands.
pub open spec fn logical_operator(token: TokenView) -> Option<BooleanOp> {
    match token {
        TokenView::And | TokenView::Or => boolean_operator(token),
        _ => None,
    }
}

/// Whether an arithmetic expression that ends before position `at` ends
/// there for the parser too: no arithmetic operator stands at `at`.
pub open spec fn arithmetic_ends_at(tokens: Seq<TokenView>, at: int) -> bool {
    match token_at(tokens, at) {
        None => true,
        Some(token) => arithmetic_operator(token).is_none(),
    }
}

/// Whether a boolean expression that ends before position `at` ends
/// there for the parser too: neither an arithmetic nor a logical operator
/// stands at `at`.
pub open spec fn boolean_ends_at(tokens: Seq<TokenView>, at: int) -> bool {
    match token_at(tokens, at) {
        None => true,
        Some(token) => arithmetic_operator(token).is_none() && logical_operator(token).is_none(),
    }
}

/// Whether a statement that ends before position `at` ends there for the
/// parser too: neither an arithmetic operator nor a `;` stands at `at`.
pub open spec fn statement_ends_at(tokens: Seq<TokenView>, at: int) -> bool {
    match token_at(tokens, at) {
        None => true,
        Some(token) => arithmetic_operator(token).is_none() && token != TokenView::SemiColon,
    }
}

/// `ArithComp` at position `at`.
pub open spec fn arithmetic_component_at(tokens: Seq<TokenView>, at: int) -> Parsed<
    ArithmeticView,
>
    decreases remaining(tokens, at), 0nat,
{
    match token_at(tokens, at) {
        None => Err(ParseErrorView::UnexpectedEnd),
        Some(TokenView::Int(value)) => spanning(ArithmeticView::Int(value), 1),
        Some(TokenView::Ident(name)) => spanning(ArithmeticView::Ident(name), 1),
        Some(TokenView::OpenParen) => match arithmetic_at(tokens, at + 1) {
            Err(error) => Err(error),
            Ok((inner, used)) => match missing_at(tokens, at + 1 + used, TokenView::CloseParen) {
                Some(error) => Err(error),
                None => spanning(ArithmeticView::Paren(Box::new(inner)), used + 2),
            },
        },
        Some(other) => Err(ParseErrorView::UnexpectedToken(other)),
    }
}

/// The rest of an operator chain whose operands so far make up `lhs`:
/// `( ('+'|'-'|'*') ArithComp )*` at position `at`.
pub open spec fn arithmetic_chain_at(
    tokens: Seq<TokenView>,
    at: int,
    lhs: ArithmeticView,
) -> Parsed<ArithmeticView>
    decreases remaining(tokens, at), 1nat,
{
    match token_at(tokens, at) {
        None => spanning(lhs, 0),
        Some(token) => match arithmetic_operator(token) {
            None => spanning(lhs, 0),
            Some(op) => match arithmetic_component_at(tokens, at + 1) {
                Err(error) => Err(error),
                Ok((rhs, used)) => shifted(
                    arithmetic_chain_at(
                        tokens,
                        at + 1 + used,
                        ArithmeticView::Binary { lhs: Box::new(lhs), op, rhs: Box::new(rhs) },
                    ),
                    1 + used,
                ),
            },
        },
    }
}

/// `Arithmetic` at position `at`.
pub open spec fn arithmetic_at(tokens: Seq<TokenView>, at: int) -> Parsed<ArithmeticView>
    decreases remaining(tokens, at), 2nat,
{
    match arithmetic_component_at(tokens, at) {
        Err(error) => Err(error),
        Ok((first, used)) => shifted(arithmetic_chain_at(tokens, at + used, first), used),
    }
}

/// `BooleanComp` at position `at`.
pub open spec fn boolean_component_at(tokens: Seq<TokenView>, at: int) -> Parsed<BooleanView>
    decreases remaining(tokens, at), 3nat,
{
    match token_at(tokens, at) {
        None => Err(ParseErrorView::UnexpectedEnd),
        Some(TokenView::OpenParen) => match boolean_at(tokens, at + 1) {
            Err(error) => Err(error),
            Ok((inner, used)) => match missing_at(tokens, at + 1 + used, TokenView::CloseParen) {
                Some(error) => Err(error),
                None => spanning(BooleanView::Paren(Box::new(inner)), used + 2),
            },
        },
        Some(TokenView::False) => spanning(BooleanView::False, 1),
        Some(TokenView::True) => spanning(BooleanView::True, 1),
        Some(_) => match arithmetic_at(tokens, at) {
            Err(error) => Err(error),
            Ok((lhs, used)) => match token_at(tokens, at + used) {
                None => Err(ParseErrorView::UnexpectedEnd),
                Some(token) => match comparison_operator(token) {
                    None => Err(ParseErrorView::UnexpectedToken(token)),
                    Some(op) => match arithmetic_at(tokens, at + used + 1) {
                        Err(error) => Err(error),
                        Ok((rhs, more)) => spanning(
                            BooleanView::Cmp { lhs, op, rhs },
                            used + 1 + more,
                        ),
                    },
                },
            },
        },
    }
}

/// The rest of an operator chain whose operands so far make up `lhs`:
/// `( ('&'|'|') BooleanComp )*` at position `at`.
pub open spec fn boolean_chain_at(tokens: Seq<TokenView>, at: int, lhs: BooleanView) -> Parsed<
    BooleanView,
>
    decreases remaining(tokens, at), 4nat,
{
    match token_at(tokens, at) {
        None => spanning(lhs, 0),
        Some(token) => match logical_operator(token) {
            None => spanning(lhs, 0),
            Some(op) => match boolean_component_at(tokens, at + 1) {
                Err(error) => Err(error),
                Ok((rhs, used)) => shifted(
                    boolean_chain_at(
                        tokens,
                        at + 1 + used,
                        BooleanView::Binary { lhs: Box::new(lhs), op, rhs: Box::new(rhs) },
                    ),
                    1 + used,
                ),
            },
        },
    }
}

/// `Boolean` at position `at`.
pub open spec fn boolean_at(tokens: Seq<TokenView>, at: int) -> Parsed<BooleanView>
    decreases remaining(tokens, at), 5nat,
{
    match boolean_component_at(tokens, at) {
        Err(error) => Err(error),
        Ok((first, used)) => shifted(boolean_chain_at(tokens, at + used, first), used),
    }
}

/// `':=' Arithmetic` at position `at`, assigning to `ident`.
pub open spec fn assignment_at(tokens: Seq<TokenView>, at: int, ident: Seq<char>) -> Parsed<
    StatementView,
> {
    match missing_at(tokens, at, TokenView::Assign) {
        Some(error) => Err(error),
        None => match arithmetic_at(tokens, at + 1) {
            Err(error) => Err(error),
            Ok((value, used)) => spanning(StatementView::Assignment { ident, value }, used + 1),
        },
    }
}

/// `StatementComp` at position `at`.
pub open spec fn statement_component_at(tokens: Seq<TokenView>, at: int) -> Parsed<StatementView>
    decreases remaining(tokens, at), 6nat,
{
    match token_at(tokens, at) {
        None => Err(ParseErrorView::UnexpectedEnd),
        Some(TokenView::OpenParen) => match statement_at(tokens, at + 1) {
            Err(error) => Err(error),
            Ok((inner, used)) => match missing_at(tokens, at + 1 + used, TokenView::CloseParen) {
                Some(error) => Err(error),
                None => spanning(StatementView::Paren(Box::new(inner)), used + 2),
            },
        },
        Some(TokenView::Skip) => spanning(StatementView::Skip, 1),
        Some(TokenView::If) => shifted(conditional_at(tokens, at + 1), 1),
        Some(TokenView::While) => shifted(loop_at(tokens, at + 1), 1),
        Some(TokenView::Ident(name)) => shifted(assignment_at(tokens, at + 1, name), 1),
        Some(other) => Err(ParseErrorView::UnexpectedToken(other)),
    }
}

/// `If` at position `at`, which follows the `if`.
pub open spec fn conditional_at(tokens: Seq<TokenView>, at: int) -> Parsed<StatementView>
    decreases remaining(tokens, at), 7nat,
{
    match boolean_at(tokens, at) {
        Err(error) => Err(error),
        Ok((condition, used)) => match missing_at(tokens, at + used, TokenView::Then) {
            Some(error) => Err(error),
            None => match statement_component_at(tokens, at + used + 1) {
                Err(error) => Err(error),
                Ok((if_branch, more)) => match missing_at(
                    tokens,
                    at + used + 1 + more,
                    TokenView::Else,
                ) {
                    Some(error) => Err(error),
                    None => match statement_component_at(tokens, at + used + more + 2) {
                        Err(error) => Err(error),
                        Ok((else_branch, last)) => spanning(
                            StatementView::If {
                                condition,
                                if_branch: Box::new(if_branch),
                                else_branch: Box::new(else_branch),
                            },
                            used + more + last + 2,
                        ),
                    },
                },
            },
        },
    }
}

/// `While` at position `at`, which follows the `while`.
pub open spec fn loop_at(tokens: Seq<TokenView>, at: int) -> Parsed<StatementView>
    decreases remaining(tokens, at), 7nat,
{
    match boolean_at(tokens, at) {
        Err(error) => Err(error),
        Ok((condition, used)) => match missing_at(tokens, at + used, TokenView::Do) {
            Some(error) => Err(error),
            None => match statement_component_at(tokens, at + used + 1) {
                Err(error) => Err(error),
                Ok((body, more)) => spanning(
                    StatementView::While { condition, body: Box::new(body) },
                    used + more + 1,
                ),
            },
        },
    }
}

/// `Statement` at position `at`.
pub open spec fn statement_at(tokens: Seq<TokenView>, at: int) -> Parsed<StatementView>
    decreases remaining(tokens, at), 8nat,
{
    match statement_component_at(tokens, at) {
        Err(error) => Err(error),
        Ok((first, used)) => if token_at(tokens, at + used) == Some(TokenView::SemiColon) {
            match statement_at(tokens, at + used + 1) {
                Err(error) => Err(error),
                Ok((rest, more)) => spanning(
                    StatementView::Composision(Box::new(first), Box::new(rest)),
                    used + 1 + more,
                ),
            }
        } else {
            spanning(first, used)
        },
    }
}

/// The statement that the whole of `tokens` spells.
pub open spec fn program_of(tokens: Seq<TokenView>) -> Result<StatementView, ParseErrorView> {
    match statement_at(tokens, 0) {
        Err(error) => Err(error),
        Ok((program, used)) => match token_at(tokens, used as int) {
            None => Ok(program),
            Some(extra) => Err(ParseErrorView::UnexpectedToken(extra)),
        },
    }
}

} // verus!
