//! What the listing of a tree depends on, and what it does not.

use vstd::prelude::*;
use crate::ast::{ArithmeticView, BooleanView, StatementView};
use crate::code_gen::{generated, CodeGenerator};
use crate::listing::{
    arithmetic_code, boolean_code, integer_text, label_line, label_text, labels_used,
    statement_code,
};

verus! {

/// An arithmetic expression without its parentheses.
pub open spec fn arithmetic_bare(tree: ArithmeticView) -> ArithmeticView
    decreases tree,
{
    match tree {
        ArithmeticView::Binary { lhs, op, rhs } => ArithmeticView::Binary {
            lhs: Box::new(arithmetic_bare(*lhs)),
            op,
            rhs: Box::new(arithmetic_bare(*rhs)),
        },
        ArithmeticView::Paren(inner) => arithmetic_bare(*inner),
        leaf => leaf,
    }
}

/// A boolean expression without its parentheses and those of the
/// arithmetic expressions in it.
pub open spec fn boolean_bare(tree: BooleanView) -> BooleanView
    decreases tree,
{
    match tree {
        BooleanView::Binary { lhs, op, rhs } => BooleanView::Binary {
            lhs: Box::new(boolean_bare(*lhs)),
            op,
            rhs: Box::new(boolean_bare(*rhs)),
        },
        BooleanView::Cmp { lhs, op, rhs } => BooleanView::Cmp {
            lhs: arithmetic_bare(lhs),
            op,
            rhs: arithmetic_bare(rhs),
        },
        BooleanView::Paren(inner) => boolean_bare(*inner),
        leaf => leaf,
    }
}

/// A statement without its parentheses and those of the expressions in
/// it.
pub open spec fn statement_bare(tree: StatementView) -> StatementView
    decreases tree,
{
    match tree {
        StatementView::Assignment { ident, value } => StatementView::Assignment {
            ident,
            value: arithmetic_bare(value),
        },
        StatementView::Skip => StatementView::Skip,
        StatementView::Composision(first, second) => StatementView::Composision(
            Box::new(statement_bare(*first)),
            Box::new(statement_bare(*second)),
        ),
        StatementView::If { condition, if_branch, else_branch } => StatementView::If {
            condition: boolean_bare(condition),
            if_branch: Box::new(statement_bare(*if_branch)),
            else_branch: Box::new(statement_bare(*else_branch)),
        },
        StatementView::While { condition, body } => StatementView::While {
            condition: boolean_bare(condition),
            body: Box::new(statement_bare(*body)),
        },
        StatementView::Paren(inner) => statement_bare(*inner),
    }
}

/// Parentheses leave no trace in the listing of an arithmetic expression.
pub proof fn law_arithmetic_parentheses_are_silent(tree: ArithmeticView)
    ensures
        arithmetic_code(arithmetic_bare(tree)) == arithmetic_code(tree),
    decreases tree,
{
    match tree {
        ArithmeticView::Binary { lhs, op, rhs } => {
            law_arithmetic_parentheses_are_silent(*lhs);
            law_arithmetic_parentheses_are_silent(*rhs);
        },
        ArithmeticView::Paren(inner) => {
            law_arithmetic_parentheses_are_silent(*inner);
        },
        _ => {},
    }
}

/// Parentheses leave no trace in the listing of a boolean expression.
pub proof fn law_boolean_parentheses_are_silent(tree: BooleanView)
    ensures
        boolean_code(boolean_bare(tree)) == boolean_code(tree),
    decreases tree,
{
    match tree {
        BooleanView::Binary { lhs, op, rhs } => {
            law_boolean_parentheses_are_silent(*lhs);
            law_boolean_parentheses_are_silent(*rhs);
        },
        BooleanView::Cmp { lhs, op, rhs } => {
            law_arithmetic_parentheses_are_silent(lhs);
            law_arithmetic_parentheses_are_silent(rhs);
        },
        BooleanView::Paren(inner) => {
            law_boolean_parentheses_are_silent(*inner);
        },
        _ => {},
    }
}

/// Parentheses leave no trace in the listing of a statement, nor in the
/// labels it takes.
pub proof fn law_statement_parentheses_are_silent(tree: StatementView, label: nat)
    ensures
        statement_code(statement_bare(tree), label) == statement_code(tree, label),
        labels_used(statement_bare(tree)) == labels_used(tree),
    decreases tree,
{
    match tree {
        StatementView::Assignment { ident, value } => {
            law_arithmetic_parentheses_are_silent(value);
        },
        StatementView::Skip => {},
        StatementView::Composision(first, second) => {
            law_statement_parentheses_are_silent(*first, label);
            law_statement_parentheses_are_silent(*second, label + labels_used(*first));
        },
        StatementView::If { condition, if_branch, else_branch } => {
            law_boolean_parentheses_are_silent(condition);
            law_statement_parentheses_are_silent(*if_branch, label + 2);
            law_statement_parentheses_are_silent(
                *else_branch,
                label + 2 + labels_used(*if_branch),
            );
        },
        StatementView::While { condition, body } => {
            law_boolean_parentheses_are_silent(condition);
            law_statement_parentheses_are_silent(*body, label + 2);
        },
        StatementView::Paren(inner) => {
            law_statement_parentheses_are_silent(*inner, label);
        },
    }
}

/// The listing of a sequence of three statements is the same whichever
/// way the sequence nests, and so are the labels it takes.
pub proof fn law_sequence_nesting_is_silent(
    first: StatementView,
    second: StatementView,
    third: StatementView,
    label: nat,
)
    ensures
        statement_code(
            StatementView::Composision(
                Box::new(StatementView::Composision(Box::new(first), Box::new(second))),
                Box::new(third),
            ),
            label,
        ) == statement_code(
            StatementView::Composision(
                Box::new(first),
                Box::new(StatementView::Composision(Box::new(second), Box::new(third))),
            ),
            label,
        ),
        labels_used(
            StatementView::Composision(
                Box::new(StatementView::Composision(Box::new(first), Box::new(second))),
                Box::new(third),
            ),
        ) == labels_used(
            StatementView::Composision(
                Box::new(first),
                Box::new(StatementView::Composision(Box::new(second), Box::new(third))),
            ),
        ),
{
    let left = StatementView::Composision(Box::new(first), Box::new(second));
    let right = StatementView::Composision(Box::new(second), Box::new(third));
    let after_first = label + labels_used(first);
    let after_second = after_first + labels_used(second);
    assert(labels_used(left) == labels_used(first) + labels_used(second));
    assert(labels_used(right) == labels_used(second) + labels_used(third));
    assert(statement_code(left, label) == statement_code(first, label) + statement_code(
        second,
        after_first,
    ));
    assert(statement_code(right, after_first) == statement_code(second, after_first)
        + statement_code(third, after_second));
    assert(statement_code(StatementView::Composision(Box::new(left), Box::new(third)), label)
        =~= statement_code(StatementView::Composision(Box::new(first), Box::new(right)), label));
}

/// Whether a text is not empty and ends in a line end.
pub open spec fn ends_its_line(text: Seq<char>) -> bool {
    text.len() > 0 && text.last() == '\n'
}

proof fn lemma_line_end_closes(text: Seq<char>)
    ensures
        ends_its_line(text + "\n"@),
{
    reveal_strlit("\n");
}

proof fn lemma_closed_stays_closed(text: Seq<char>, closed: Seq<char>)
    requires
        ends_its_line(closed),
    ensures
        ends_its_line(text + closed),
{
}

/// The listing of an arithmetic expression ends in a line end.
pub proof fn law_arithmetic_listing_ends_its_line(tree: ArithmeticView)
    ensures
        ends_its_line(arithmetic_code(tree)),
    decreases tree,
{
    match tree {
        ArithmeticView::Int(value) => {
            lemma_line_end_closes("    push "@ + integer_text(value as int));
        },
        ArithmeticView::Ident(name) => {
            lemma_line_end_closes("    fetch "@ + name);
        },
        ArithmeticView::Binary { lhs, op, rhs } => {
            lemma_line_end_closes(
                arithmetic_code(*lhs) + arithmetic_code(*rhs) + "    "@ + op.mnemonic_text(),
            );
        },
        ArithmeticView::Paren(inner) => {
            law_arithmetic_listing_ends_its_line(*inner);
        },
    }
}

/// The listing of a boolean expression ends in a line end.
pub proof fn law_boolean_listing_ends_its_line(tree: BooleanView)
    ensures
        ends_its_line(boolean_code(tree)),
    decreases tree,
{
    match tree {
        BooleanView::False => {
            reveal_strlit("false\n");
        },
        BooleanView::True => {
            reveal_strlit("true\n");
        },
        BooleanView::Cmp { lhs, op, rhs } => {
            lemma_line_end_closes(
                arithmetic_code(lhs) + arithmetic_code(rhs) + "    "@ + op.mnemonic_text(),
            );
        },
        BooleanView::Binary { lhs, op, rhs } => {
            lemma_line_end_closes(
                boolean_code(*lhs) + boolean_code(*rhs) + "    "@ + op.mnemonic_text(),
            );
        },
        BooleanView::Paren(inner) => {
            law_boolean_listing_ends_its_line(*inner);
        },
    }
}

/// The listing of a statement ends in a line end, whatever label it
/// starts from.
pub proof fn law_statement_listing_ends_its_line(tree: StatementView, label: nat)
    ensures
        ends_its_line(statement_code(tree, label)),
    decreases tree,
{
    match tree {
        StatementView::Assignment { ident, value } => {
            lemma_line_end_closes(arithmetic_code(value) + "    store "@ + ident);
        },
        StatementView::Skip => {
            reveal_strlit("    noop\n");
        },
        StatementView::Composision(first, second) => {
            law_statement_listing_ends_its_line(*second, label + labels_used(*first));
            lemma_closed_stays_closed(
                statement_code(*first, label),
                statement_code(*second, label + labels_used(*first)),
            );
        },
        StatementView::If { condition, if_branch, else_branch } => {
            lemma_line_end_closes(label_text(label + 1));
            assert(ends_its_line(label_line(label + 1)));
        },
        StatementView::While { condition, body } => {
            lemma_line_end_closes(label_text(label + 1));
            assert(ends_its_line(label_line(label + 1)));
        },
        StatementView::Paren(inner) => {
            law_statement_listing_ends_its_line(*inner, label);
        },
    }
}

/// Generation is a function of the tree and of the generator it starts
/// from: two runs on the same tree from the same listing and the same
/// first free label end with the same listing and the same label.
pub proof fn law_generation_is_repeatable(
    tree: StatementView,
    before: CodeGenerator,
    after: CodeGenerator,
    again_before: CodeGenerator,
    again_after: CodeGenerator,
)
    requires
        generated(before, tree, after),
        generated(again_before, tree, again_after),
        before.output_string@ == again_before.output_string@,
        before.label == again_before.label,
    ensures
        after.output_string@ == again_after.output_string@,
        after.label == again_after.label,
{
}

} // verus!
