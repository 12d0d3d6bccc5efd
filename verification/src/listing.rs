//! The text of the listing that a syntax tree is lowered to.
//!
//! Every line of the listing ends in a line end, and none is empty. An
//! instruction stands on a line of its own behind four spaces. A boolean
//! literal stands on a line of its own too, bare: neither behind `push`
//! nor indented. A label is a decimal number with a colon behind it, and
//! stands at the start of the line that defines it.

use vstd::prelude::*;
use crate::ast::{ArithmeticView, BooleanView, StatementView};

verus! {

/// The character of one decimal digit.
pub open spec fn digit(value: nat) -> char {
    if value == 0 {
        '0'
    } else if value == 1 {
        '1'
    } else if value == 2 {
        '2'
    } else if value == 3 {
        '3'
    } else if value == 4 {
        '4'
    } else if value == 5 {
        '5'
    } else if value == 6 {
        '6'
    } else if value == 7 {
        '7'
    } else if value == 8 {
        '8'
    } else {
        '9'
    }
}

/// A natural number in decimal, without leading zeros.
pub open spec fn decimal(value: nat) -> Seq<char>
    decreases value,
{
    if value < 10 {
        seq![digit(value)]
    } else {
        decimal(value / 10).push(digit(value % 10))
    }
}

/// An integer in decimal, with a minus sign before a negative one.
pub open spec fn integer_text(value: int) -> Seq<char> {
    if value < 0 {
        seq!['-'] + decimal((-value) as nat)
    } else {
        decimal(value as nat)
    }
}

/// A label as it is written, in a jump and where it is defined alike.
pub open spec fn label_text(label: nat) -> Seq<char> {
    decimal(label).push(':')
}

/// The listing of an arithmetic expression: the operands from left to
/// right, then the operator. Parentheses leave no trace.
pub open spec fn arithmetic_code(tree: ArithmeticView) -> Seq<char>
    decreases tree,
{
    match tree {
        ArithmeticView::Int(value) => "    push "@ + integer_text(value as int) + "\n"@,
        ArithmeticView::Ident(name) => "    fetch "@ + name + "\n"@,
        ArithmeticView::Binary { lhs, op, rhs } => arithmetic_code(*lhs) + arithmetic_code(*rhs)
            + "    "@ + op.mnemonic_text() + "\n"@,
        ArithmeticView::Paren(inner) => arithmetic_code(*inner),
    }
}

/// The listing of a boolean expression: the operands from left to right,
/// then the operator. Parentheses leave no trace.
pub open spec fn boolean_code(tree: BooleanView) -> Seq<char>
    decreases tree,
{
    match tree {
        BooleanView::False => "false\n"@,
        BooleanView::True => "true\n"@,
        BooleanView::Cmp { lhs, op, rhs } => arithmetic_code(lhs) + arithmetic_code(rhs) + "    "@
            + op.mnemonic_text() + "\n"@,
        BooleanView::Binary { lhs, op, rhs } => boolean_code(*lhs) + boolean_code(*rhs) + "    "@
            + op.mnemonic_text() + "\n"@,
        BooleanView::Paren(inner) => boolean_code(*inner),
    }
}

/// The number of labels that the listing of a statement defines: two for
/// each conditional and each loop in it.
pub open spec fn labels_used(tree: StatementView) -> nat
    decreases tree,
{
    match tree {
        StatementView::Assignment { .. } => 0,
        StatementView::Skip => 0,
        StatementView::Composision(first, second) => labels_used(*first) + labels_used(*second),
        StatementView::If { if_branch, else_branch, .. } => 2 + labels_used(*if_branch)
            + labels_used(*else_branch),
        StatementView::While { body, .. } => 2 + labels_used(*body),
        StatementView::Paren(inner) => labels_used(*inner),
    }
}

/// A jump instruction to `label`.
pub open spec fn jump_code(instruction: Seq<char>, label: nat) -> Seq<char> {
    "    "@ + instruction + " "@ + label_text(label) + "\n"@
}

/// The line that defines `label`.
pub open spec fn label_line(label: nat) -> Seq<char> {
    label_text(label) + "\n"@
}

/// The listing of a statement when `label` is the first free label.
///
/// A conditional takes `label` for its else branch and `label + 1` for
/// its end; a loop takes `label` for its condition and `label + 1` for its
/// end. What is nested in them, and what follows them, takes the labels
/// after these, in the order of the listing.
pub open spec fn statement_code(tree: StatementView, label: nat) -> Seq<char>
    decreases tree,
{
    match tree {
        StatementView::Assignment { ident, value } => arithmetic_code(value) + "    store "@
            + ident + "\n"@,
        StatementView::Skip => "    noop\n"@,
        StatementView::Composision(first, second) => statement_code(*first, label)
            + statement_code(*second, label + labels_used(*first)),
        StatementView::If { condition, if_branch, else_branch } => boolean_code(condition)
            + jump_code("jeqz"@, label) + statement_code(*if_branch, label + 2) + jump_code(
            "jmp"@,
            label + 1,
        ) + label_line(label) + statement_code(
            *else_branch,
            label + 2 + labels_used(*if_branch),
        ) + label_line(label + 1),
        StatementView::While { condition, body } => label_line(label) + boolean_code(condition)
            + jump_code("jeqz"@, label + 1) + statement_code(*body, label + 2) + jump_code(
            "jmp"@,
            label,
        ) + label_line(label + 1),
        StatementView::Paren(inner) => statement_code(*inner, label),
    }
}

/// The number of nodes of a statement, its expressions left aside.
pub open spec fn statement_nodes(tree: StatementView) -> nat
    decreases tree,
{
    match tree {
        StatementView::Assignment { .. } => 1,
        StatementView::Skip => 1,
        StatementView::Composision(first, second) => 1 + statement_nodes(*first)
            + statement_nodes(*second),
        StatementView::If { if_branch, else_branch, .. } => 1 + statement_nodes(*if_branch)
            + statement_nodes(*else_branch),
        StatementView::While { body, .. } => 1 + statement_nodes(*body),
        StatementView::Paren(inner) => 1 + statement_nodes(*inner),
    }
}

} // verus!
