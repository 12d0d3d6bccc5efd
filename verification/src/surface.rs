//! The surface syntax of a tree: the tokens that spell it, and the shapes
//! of tree that the grammar can spell.

use vstd::prelude::*;
use crate::ast::{ArithmeticOp, ArithmeticView, BooleanOp, BooleanView, StatementView};
use crate::lexer::TokenView;

verus! {

/// The token that spells an arithmetic operator.
pub open spec fn arithmetic_operator_token(op: ArithmeticOp) -> TokenView {
    match op {
        ArithmeticOp::Add => TokenView::Add,
        ArithmeticOp::Sub => TokenView::Sub,
        ArithmeticOp::Mul => TokenView::Mul,
    }
}

/// The token that spells a boolean operator.
pub open spec fn boolean_operator_token(op: BooleanOp) -> TokenView {
    match op {
        BooleanOp::Eq => TokenView::Eq,
        BooleanOp::Lt => TokenView::Lt,
        BooleanOp::LEq => TokenView::LEq,
        BooleanOp::Gt => TokenView::Gt,
        BooleanOp::GEq => TokenView::GEq,
        BooleanOp::And => TokenView::And,
        BooleanOp::Or => TokenView::Or,
        BooleanOp::Not => TokenView::Not,
    }
}

/// Whether an operator compares two arithmetic operands.
pub open spec fn is_comparison(op: BooleanOp) -> bool {
    op == BooleanOp::Eq || op == BooleanOp::Lt || op == BooleanOp::LEq || op == BooleanOp::Gt
        || op == BooleanOp::GEq
}

/// Whether an operator joins two boolean operands.
pub open spec fn is_logical(op: BooleanOp) -> bool {
    op == BooleanOp::And || op == BooleanOp::Or
}

/// The tokens of an arithmetic expression, read in order from left to
/// right.
pub open spec fn arithmetic_tokens(tree: ArithmeticView) -> Seq<TokenView>
    decreases tree,
{
    match tree {
        ArithmeticView::Int(value) => seq![TokenView::Int(value)],
        ArithmeticView::Ident(name) => seq![TokenView::Ident(name)],
        ArithmeticView::Binary { lhs, op, rhs } => arithmetic_tokens(*lhs).push(
            arithmetic_operator_token(op),
        ) + arithmetic_tokens(*rhs),
        ArithmeticView::Paren(inner) => seq![TokenView::OpenParen] + arithmetic_tokens(
            *inner,
        ).push(TokenView::CloseParen),
    }
}

/// The tokens of a boolean expression, read in order from left to right.
pub open spec fn boolean_tokens(tree: BooleanView) -> Seq<TokenView>
    decreases tree,
{
    match tree {
        BooleanView::False => seq![TokenView::False],
        BooleanView::True => seq![TokenView::True],
        BooleanView::Cmp { lhs, op, rhs } => arithmetic_tokens(lhs).push(
            boolean_operator_token(op),
        ) + arithmetic_tokens(rhs),
        BooleanView::Binary { lhs, op, rhs } => boolean_tokens(*lhs).push(
            boolean_operator_token(op),
        ) + boolean_tokens(*rhs),
        BooleanView::Paren(inner) => seq![TokenView::OpenParen] + boolean_tokens(*inner).push(
            TokenView::CloseParen,
        ),
    }
}

/// The tokens of a statement, read in order from left to right.
pub open spec fn statement_tokens(tree: StatementView) -> Seq<TokenView>
    decreases tree,
{
    match tree {
        StatementView::Assignment { ident, value } => seq![
            TokenView::Ident(ident),
            TokenView::Assign,
        ] + arithmetic_tokens(value),
        StatementView::Skip => seq![TokenView::Skip],
        StatementView::Composision(first, second) => statement_tokens(*first).push(
            TokenView::SemiColon,
        ) + statement_tokens(*second),
        StatementView::If { condition, if_branch, else_branch } => seq![TokenView::If]
            + boolean_tokens(condition).push(TokenView::Then) + statement_tokens(
            *if_branch,
        ).push(TokenView::Else) + statement_tokens(*else_branch),
        StatementView::While { condition, body } => seq![TokenView::While] + boolean_tokens(
            condition,
        ).push(TokenView::Do) + statement_tokens(*body),
        StatementView::Paren(inner) => seq![TokenView::OpenParen] + statement_tokens(
            *inner,
        ).push(TokenView::CloseParen),
    }
}

/// Whether a tree has the shape that the grammar gives an arithmetic
/// expression: operators group to the left, so the right operand of an
/// operator is never itself an operator.
pub open spec fn arithmetic_shaped(tree: ArithmeticView) -> bool
    decreases tree,
{
    match tree {
        ArithmeticView::Int(_) => true,
        ArithmeticView::Ident(_) => true,
        ArithmeticView::Binary { lhs, op, rhs } => {
            &&& arithmetic_shaped(*lhs)
            &&& arithmetic_shaped(*rhs)
            &&& !(*rhs is Binary)
        },
        ArithmeticView::Paren(inner) => arithmetic_shaped(*inner),
    }
}

/// Whether a tree is one operand of an arithmetic expression: a literal,
/// a variable, or a parenthesised expression of the grammar's shape.
pub open spec fn arithmetic_operand(tree: ArithmeticView) -> bool {
    arithmetic_shaped(tree) && !(tree is Binary)
}

/// Whether a tree has the shape that the grammar gives a boolean
/// expression: `&` and `|` group to the left and join boolean operands, a
/// comparison joins two arithmetic expressions, and its left side does not
/// open with a parenthesis.
pub open spec fn boolean_shaped(tree: BooleanView) -> bool
    decreases tree,
{
    match tree {
        BooleanView::False => true,
        BooleanView::True => true,
        BooleanView::Cmp { lhs, op, rhs } => {
            &&& is_comparison(op)
            &&& arithmetic_shaped(lhs)
            &&& arithmetic_shaped(rhs)
            &&& arithmetic_tokens(lhs).first() != TokenView::OpenParen
        },
        BooleanView::Binary { lhs, op, rhs } => {
            &&& is_logical(op)
            &&& boolean_shaped(*lhs)
            &&& boolean_shaped(*rhs)
            &&& !(*rhs is Binary)
        },
        BooleanView::Paren(inner) => boolean_shaped(*inner),
    }
}

/// Whether a tree is one operand of a boolean expression: a literal, a
/// comparison, or a parenthesised expression of the grammar's shape.
pub open spec fn boolean_operand(tree: BooleanView) -> bool {
    boolean_shaped(tree) && !(tree is Binary)
}

/// Whether a tree has the shape that the grammar gives a statement: a
/// sequence nests to the right, so its first part is never a sequence,
/// and neither is a branch of a conditional or the body of a loop.
pub open spec fn statement_shaped(tree: StatementView) -> bool
    decreases tree,
{
    match tree {
        StatementView::Assignment { value, .. } => arithmetic_shaped(value),
        StatementView::Skip => true,
        StatementView::Composision(first, second) => {
            &&& statement_shaped(*first)
            &&& !(*first is Composision)
            &&& statement_shaped(*second)
        },
        StatementView::If { condition, if_branch, else_branch } => {
            &&& boolean_shaped(condition)
            &&& statement_shaped(*if_branch)
            &&& !(*if_branch is Composision)
            &&& statement_shaped(*else_branch)
            &&& !(*else_branch is Composision)
        },
        StatementView::While { condition, body } => {
            &&& boolean_shaped(condition)
            &&& statement_shaped(*body)
            &&& !(*body is Composision)
        },
        StatementView::Paren(inner) => statement_shaped(*inner),
    }
}

/// Whether a tree is one statement component: a statement of the
/// grammar's shape that is not a sequence.
pub open spec fn statement_single(tree: StatementView) -> bool {
    statement_shaped(tree) && !(tree is Composision)
}

/// Whether `tokens` spell the program `tree`: the tree has the grammar's
/// shape, and its tokens are all of `tokens`, in their order.
pub open spec fn spells_program(tokens: Seq<TokenView>, tree: StatementView) -> bool {
    statement_shaped(tree) && statement_tokens(tree) == tokens
}

} // verus!
