//! What parsing gives back: a tree of the grammar's shape is read again
//! from its own spelling.

use vstd::prelude::*;
use crate::ast::{ArithmeticOp, ArithmeticView, BooleanOp, BooleanView, StatementView};
use crate::grammar::{
    arithmetic_at, arithmetic_chain_at, arithmetic_component_at, arithmetic_operator,
    assignment_at, boolean_at, boolean_chain_at, boolean_component_at, comparison_operator,
    arithmetic_ends_at, boolean_ends_at, conditional_at, logical_operator, loop_at, missing_at,
    program_of, shifted, spanning, statement_at, statement_component_at, statement_ends_at,
    token_at,
};
use crate::lexer::TokenView;
use crate::parser::ParseErrorView;
use crate::roundtrip::{law_program_is_whole_input, stands_at};
use crate::surface::{
    arithmetic_operand, arithmetic_operator_token, arithmetic_shaped, arithmetic_tokens,
    boolean_operand, boolean_operator_token, boolean_shaped, boolean_tokens, is_comparison,
    is_logical, spells_program, statement_shaped, statement_single, statement_tokens,
};

verus! {

proof fn lemma_operators_of_tokens(arithmetic: ArithmeticOp, boolean: BooleanOp)
    ensures
        arithmetic_operator(arithmetic_operator_token(arithmetic)) == Some(arithmetic),
        logical_operator(arithmetic_operator_token(arithmetic)).is_none(),
        arithmetic_operator(boolean_operator_token(boolean)).is_none(),
        is_comparison(boolean) ==> comparison_operator(boolean_operator_token(boolean)) == Some(
            boolean,
        ),
        is_logical(boolean) ==> logical_operator(boolean_operator_token(boolean)) == Some(boolean),
{
}

proof fn lemma_stands_split(
    tokens: Seq<TokenView>,
    at: int,
    first: Seq<TokenView>,
    second: Seq<TokenView>,
)
    requires
        stands_at(tokens, at, first + second),
    ensures
        stands_at(tokens, at, first),
        stands_at(tokens, at + first.len(), second),
{
    let whole = first + second;
    assert forall|i: int| 0 <= i < whole.len() implies tokens[at + i] == #[trigger] whole[i] by {
        assert(tokens.subrange(at, at + whole.len())[i] == tokens[at + i]);
    }
    assert forall|i: int| 0 <= i < first.len() implies tokens[at + i] == #[trigger] first[i] by {
        assert(whole[i] == first[i]);
    }
    assert forall|i: int| 0 <= i < second.len() implies tokens[at + first.len() + i]
        == #[trigger] second[i] by {
        assert(whole[first.len() + i] == second[i]);
    }
    assert(tokens.subrange(at, at + first.len()) =~= first);
    assert(tokens.subrange(at + first.len(), at + first.len() + second.len()) =~= second);
}

proof fn lemma_stands_one(tokens: Seq<TokenView>, at: int, token: TokenView)
    requires
        stands_at(tokens, at, seq![token]),
    ensures
        token_at(tokens, at) == Some(token),
{
    assert(tokens.subrange(at, at + 1)[0] == tokens[at]);
}

proof fn lemma_stands_pushed(
    tokens: Seq<TokenView>,
    at: int,
    body: Seq<TokenView>,
    last: TokenView,
)
    requires
        stands_at(tokens, at, body.push(last)),
    ensures
        stands_at(tokens, at, body),
        token_at(tokens, at + body.len()) == Some(last),
{
    assert(body.push(last) =~= body + seq![last]);
    lemma_stands_split(tokens, at, body, seq![last]);
    lemma_stands_one(tokens, at + body.len(), last);
}

proof fn lemma_stands_wrapped(
    tokens: Seq<TokenView>,
    at: int,
    open: TokenView,
    body: Seq<TokenView>,
    close: TokenView,
)
    requires
        stands_at(tokens, at, seq![open] + body.push(close)),
    ensures
        token_at(tokens, at) == Some(open),
        stands_at(tokens, at + 1, body),
        token_at(tokens, at + 1 + body.len()) == Some(close),
{
    lemma_stands_split(tokens, at, seq![open], body.push(close));
    lemma_stands_one(tokens, at, open);
    lemma_stands_pushed(tokens, at + 1, body, close);
}

/// The spelling of an arithmetic expression is not empty, and opens with
/// a literal, a variable or a parenthesis.
proof fn lemma_arithmetic_opening(tree: ArithmeticView)
    ensures
        arithmetic_tokens(tree).len() >= 1,
        arithmetic_tokens(tree).first() is Int || arithmetic_tokens(tree).first() is Ident
            || arithmetic_tokens(tree).first() is OpenParen,
    decreases tree,
{
    match tree {
        ArithmeticView::Binary { lhs, op, rhs } => {
            lemma_arithmetic_opening(*lhs);
        },
        _ => {},
    }
}

proof fn lemma_boolean_opening(tree: BooleanView)
    ensures
        boolean_tokens(tree).len() >= 1,
    decreases tree,
{
    match tree {
        BooleanView::Binary { lhs, op, rhs } => {
            lemma_boolean_opening(*lhs);
        },
        BooleanView::Cmp { lhs, op, rhs } => {
            lemma_arithmetic_opening(lhs);
        },
        _ => {},
    }
}

proof fn lemma_statement_opening(tree: StatementView)
    ensures
        statement_tokens(tree).len() >= 1,
    decreases tree,
{
    match tree {
        StatementView::Composision(first, second) => {
            lemma_statement_opening(*first);
        },
        _ => {},
    }
}

proof fn lemma_arithmetic_operand_read(tokens: Seq<TokenView>, at: int, tree: ArithmeticView)
    requires
        arithmetic_operand(tree),
        stands_at(tokens, at, arithmetic_tokens(tree)),
    ensures
        arithmetic_component_at(tokens, at) == spanning(tree, arithmetic_tokens(tree).len()),
    decreases tree, 0nat,
{
    match tree {
        ArithmeticView::Int(value) => {
            lemma_stands_one(tokens, at, TokenView::Int(value));
        },
        ArithmeticView::Ident(name) => {
            lemma_stands_one(tokens, at, TokenView::Ident(name));
        },
        ArithmeticView::Binary { .. } => {},
        ArithmeticView::Paren(inner) => {
            let body = arithmetic_tokens(*inner);
            lemma_stands_wrapped(tokens, at, TokenView::OpenParen, body, TokenView::CloseParen);
            lemma_arithmetic_read(tokens, at + 1, *inner);
            assert(missing_at(tokens, at + 1 + body.len(), TokenView::CloseParen).is_none());
        },
    }
}

proof fn lemma_arithmetic_read_through(tokens: Seq<TokenView>, at: int, tree: ArithmeticView)
    requires
        arithmetic_shaped(tree),
        stands_at(tokens, at, arithmetic_tokens(tree)),
    ensures
        arithmetic_at(tokens, at) == shifted(
            arithmetic_chain_at(tokens, at + arithmetic_tokens(tree).len(), tree),
            arithmetic_tokens(tree).len(),
        ),
    decreases tree, 1nat,
{
    match tree {
        ArithmeticView::Binary { lhs, op, rhs } => {
            let left = arithmetic_tokens(*lhs);
            let right = arithmetic_tokens(*rhs);
            let token = arithmetic_operator_token(op);
            lemma_stands_split(tokens, at, left.push(token), right);
            lemma_stands_pushed(tokens, at, left, token);
            lemma_operators_of_tokens(op, BooleanOp::Eq);
            lemma_arithmetic_read_through(tokens, at, *lhs);
            lemma_arithmetic_operand_read(tokens, at + left.len() + 1, *rhs);
            assert(arithmetic_chain_at(tokens, at + left.len(), *lhs) == shifted(
                arithmetic_chain_at(tokens, at + left.len() + 1 + right.len(), tree),
                1 + right.len(),
            ));
        },
        _ => {
            lemma_arithmetic_operand_read(tokens, at, tree);
        },
    }
}

proof fn lemma_arithmetic_read(tokens: Seq<TokenView>, at: int, tree: ArithmeticView)
    requires
        arithmetic_shaped(tree),
        stands_at(tokens, at, arithmetic_tokens(tree)),
        arithmetic_ends_at(tokens, at + arithmetic_tokens(tree).len()),
    ensures
        arithmetic_at(tokens, at) == spanning(tree, arithmetic_tokens(tree).len()),
    decreases tree, 2nat,
{
    lemma_arithmetic_read_through(tokens, at, tree);
}

proof fn lemma_boolean_operand_read(tokens: Seq<TokenView>, at: int, tree: BooleanView)
    requires
        boolean_operand(tree),
        stands_at(tokens, at, boolean_tokens(tree)),
        arithmetic_ends_at(tokens, at + boolean_tokens(tree).len()),
    ensures
        boolean_component_at(tokens, at) == spanning(tree, boolean_tokens(tree).len()),
    decreases tree, 0nat,
{
    match tree {
        BooleanView::False => {
            lemma_stands_one(tokens, at, TokenView::False);
        },
        BooleanView::True => {
            lemma_stands_one(tokens, at, TokenView::True);
        },
        BooleanView::Binary { .. } => {},
        BooleanView::Cmp { lhs, op, rhs } => {
            let left = arithmetic_tokens(lhs);
            let right = arithmetic_tokens(rhs);
            let token = boolean_operator_token(op);
            lemma_stands_split(tokens, at, left.push(token), right);
            lemma_stands_pushed(tokens, at, left, token);
            lemma_operators_of_tokens(ArithmeticOp::Add, op);
            lemma_arithmetic_opening(lhs);
            assert(tokens.subrange(at, at + left.len())[0] == tokens[at]);
            assert(token_at(tokens, at) == Some(left.first()));
            lemma_arithmetic_read(tokens, at, lhs);
            lemma_arithmetic_read(tokens, at + left.len() + 1, rhs);
        },
        BooleanView::Paren(inner) => {
            let body = boolean_tokens(*inner);
            lemma_stands_wrapped(tokens, at, TokenView::OpenParen, body, TokenView::CloseParen);
            lemma_boolean_read(tokens, at + 1, *inner);
            assert(missing_at(tokens, at + 1 + body.len(), TokenView::CloseParen).is_none());
        },
    }
}

proof fn lemma_boolean_read_through(tokens: Seq<TokenView>, at: int, tree: BooleanView)
    requires
        boolean_shaped(tree),
        stands_at(tokens, at, boolean_tokens(tree)),
        arithmetic_ends_at(tokens, at + boolean_tokens(tree).len()),
    ensures
        boolean_at(tokens, at) == shifted(
            boolean_chain_at(tokens, at + boolean_tokens(tree).len(), tree),
            boolean_tokens(tree).len(),
        ),
    decreases tree, 1nat,
{
    match tree {
        BooleanView::Binary { lhs, op, rhs } => {
            let left = boolean_tokens(*lhs);
            let right = boolean_tokens(*rhs);
            let token = boolean_operator_token(op);
            lemma_stands_split(tokens, at, left.push(token), right);
            lemma_stands_pushed(tokens, at, left, token);
            lemma_operators_of_tokens(ArithmeticOp::Add, op);
            lemma_boolean_read_through(tokens, at, *lhs);
            lemma_boolean_operand_read(tokens, at + left.len() + 1, *rhs);
            assert(boolean_chain_at(tokens, at + left.len(), *lhs) == shifted(
                boolean_chain_at(tokens, at + left.len() + 1 + right.len(), tree),
                1 + right.len(),
            ));
        },
        _ => {
            lemma_boolean_operand_read(tokens, at, tree);
        },
    }
}

proof fn lemma_boolean_read(tokens: Seq<TokenView>, at: int, tree: BooleanView)
    requires
        boolean_shaped(tree),
        stands_at(tokens, at, boolean_tokens(tree)),
        boolean_ends_at(tokens, at + boolean_tokens(tree).len()),
    ensures
        boolean_at(tokens, at) == spanning(tree, boolean_tokens(tree).len()),
    decreases tree, 2nat,
{
    lemma_boolean_read_through(tokens, at, tree);
}

proof fn lemma_assignment_read(tokens: Seq<TokenView>, at: int, tree: StatementView)
    requires
        tree is Assignment,
        statement_single(tree),
        stands_at(tokens, at, statement_tokens(tree)),
        arithmetic_ends_at(tokens, at + statement_tokens(tree).len()),
    ensures
        statement_component_at(tokens, at) == spanning(tree, statement_tokens(tree).len()),
{
    if let StatementView::Assignment { ident, value } = tree {
        let head = seq![TokenView::Ident(ident), TokenView::Assign];
        assert(head =~= seq![TokenView::Ident(ident)].push(TokenView::Assign));
        lemma_stands_split(tokens, at, head, arithmetic_tokens(value));
        lemma_stands_pushed(tokens, at, seq![TokenView::Ident(ident)], TokenView::Assign);
        lemma_stands_one(tokens, at, TokenView::Ident(ident));
        lemma_arithmetic_read(tokens, at + 2, value);
        assert(missing_at(tokens, at + 1, TokenView::Assign).is_none());
        assert(assignment_at(tokens, at + 1, ident) == spanning(
            tree,
            arithmetic_tokens(value).len() + 1,
        ));
    }
}

proof fn lemma_conditional_read(tokens: Seq<TokenView>, at: int, tree: StatementView)
    requires
        tree is If,
        statement_single(tree),
        stands_at(tokens, at, statement_tokens(tree)),
        arithmetic_ends_at(tokens, at + statement_tokens(tree).len()),
    ensures
        statement_component_at(tokens, at) == spanning(tree, statement_tokens(tree).len()),
    decreases tree, 0nat,
{
    if let StatementView::If { condition, if_branch, else_branch } = tree {
        let guard = boolean_tokens(condition);
        let first = statement_tokens(*if_branch);
        let second = statement_tokens(*else_branch);
        let opening = seq![TokenView::If] + guard.push(TokenView::Then);
        let first_at = at + 2 + guard.len();
        let second_at = first_at + first.len() + 1;
        assert(opening.len() == guard.len() + 2);
        assert(statement_tokens(tree) == opening + first.push(TokenView::Else) + second);
        lemma_stands_split(tokens, at, opening + first.push(TokenView::Else), second);
        lemma_stands_split(tokens, at, opening, first.push(TokenView::Else));
        lemma_stands_wrapped(tokens, at, TokenView::If, guard, TokenView::Then);
        lemma_stands_pushed(tokens, first_at, first, TokenView::Else);
        assert(stands_at(tokens, second_at, second));
        lemma_boolean_read(tokens, at + 1, condition);
        lemma_statement_single_read(tokens, first_at, *if_branch);
        lemma_statement_single_read(tokens, second_at, *else_branch);
        assert(missing_at(tokens, at + 1 + guard.len(), TokenView::Then).is_none());
        assert(missing_at(tokens, first_at + first.len(), TokenView::Else).is_none());
        assert(boolean_at(tokens, at + 1) == spanning(condition, guard.len()));
        assert(statement_component_at(tokens, at + 1 + guard.len() + 1) == spanning(
            *if_branch,
            first.len(),
        ));
        assert(statement_component_at(tokens, at + 1 + guard.len() + first.len() + 2)
            == spanning(*else_branch, second.len()));
        assert(conditional_at(tokens, at + 1) == spanning(
            tree,
            guard.len() + first.len() + second.len() + 2,
        ));
    }
}

proof fn lemma_loop_read(tokens: Seq<TokenView>, at: int, tree: StatementView)
    requires
        tree is While,
        statement_single(tree),
        stands_at(tokens, at, statement_tokens(tree)),
        arithmetic_ends_at(tokens, at + statement_tokens(tree).len()),
    ensures
        statement_component_at(tokens, at) == spanning(tree, statement_tokens(tree).len()),
    decreases tree, 0nat,
{
    if let StatementView::While { condition, body } = tree {
        let guard = boolean_tokens(condition);
        let inside = statement_tokens(*body);
        lemma_stands_split(tokens, at, seq![TokenView::While] + guard.push(TokenView::Do), inside);
        lemma_stands_wrapped(tokens, at, TokenView::While, guard, TokenView::Do);
        lemma_boolean_read(tokens, at + 1, condition);
        lemma_statement_single_read(tokens, at + 2 + guard.len(), *body);
        assert(missing_at(tokens, at + 1 + guard.len(), TokenView::Do).is_none());
        assert(statement_component_at(tokens, at + 1 + guard.len() + 1) == spanning(
            *body,
            inside.len(),
        ));
        assert(loop_at(tokens, at + 1) == spanning(tree, guard.len() + inside.len() + 1));
    }
}

proof fn lemma_statement_single_read(tokens: Seq<TokenView>, at: int, tree: StatementView)
    requires
        statement_single(tree),
        stands_at(tokens, at, statement_tokens(tree)),
        arithmetic_ends_at(tokens, at + statement_tokens(tree).len()),
    ensures
        statement_component_at(tokens, at) == spanning(tree, statement_tokens(tree).len()),
    decreases tree, 1nat,
{
    match tree {
        StatementView::Assignment { .. } => {
            lemma_assignment_read(tokens, at, tree);
        },
        StatementView::Skip => {
            lemma_stands_one(tokens, at, TokenView::Skip);
        },
        StatementView::Composision(_, _) => {},
        StatementView::If { .. } => {
            lemma_conditional_read(tokens, at, tree);
        },
        StatementView::While { .. } => {
            lemma_loop_read(tokens, at, tree);
        },
        StatementView::Paren(inner) => {
            let body = statement_tokens(*inner);
            lemma_stands_wrapped(tokens, at, TokenView::OpenParen, body, TokenView::CloseParen);
            lemma_statement_read(tokens, at + 1, *inner);
            assert(missing_at(tokens, at + 1 + body.len(), TokenView::CloseParen).is_none());
        },
    }
}

proof fn lemma_statement_read(tokens: Seq<TokenView>, at: int, tree: StatementView)
    requires
        statement_shaped(tree),
        stands_at(tokens, at, statement_tokens(tree)),
        statement_ends_at(tokens, at + statement_tokens(tree).len()),
    ensures
        statement_at(tokens, at) == spanning(tree, statement_tokens(tree).len()),
    decreases tree, 2nat,
{
    match tree {
        StatementView::Composision(first, second) => {
            let head = statement_tokens(*first);
            let rest = statement_tokens(*second);
            lemma_stands_split(tokens, at, head.push(TokenView::SemiColon), rest);
            lemma_stands_pushed(tokens, at, head, TokenView::SemiColon);
            lemma_statement_single_read(tokens, at, *first);
            lemma_statement_read(tokens, at + head.len() + 1, *second);
        },
        _ => {
            lemma_statement_single_read(tokens, at, tree);
        },
    }
}

/// An arithmetic expression of the grammar's shape is read from its own
/// spelling: where its tokens stand in the input and no arithmetic
/// operator follows them, the grammar reads that very tree, over just
/// those tokens.
pub proof fn law_arithmetic_reads_its_spelling(
    tokens: Seq<TokenView>,
    at: int,
    tree: ArithmeticView,
)
    requires
        arithmetic_shaped(tree),
        stands_at(tokens, at, arithmetic_tokens(tree)),
        arithmetic_ends_at(tokens, at + arithmetic_tokens(tree).len()),
    ensures
        arithmetic_at(tokens, at) == spanning(tree, arithmetic_tokens(tree).len()),
{
    lemma_arithmetic_read(tokens, at, tree);
}

/// A boolean expression of the grammar's shape is read from its own
/// spelling, where neither an arithmetic nor a logical operator follows
/// it.
pub proof fn law_boolean_reads_its_spelling(tokens: Seq<TokenView>, at: int, tree: BooleanView)
    requires
        boolean_shaped(tree),
        stands_at(tokens, at, boolean_tokens(tree)),
        boolean_ends_at(tokens, at + boolean_tokens(tree).len()),
    ensures
        boolean_at(tokens, at) == spanning(tree, boolean_tokens(tree).len()),
{
    lemma_boolean_read(tokens, at, tree);
}

/// A statement of the grammar's shape is read from its own spelling,
/// where neither an arithmetic operator nor a `;` follows it.
pub proof fn law_statement_reads_its_spelling(
    tokens: Seq<TokenView>,
    at: int,
    tree: StatementView,
)
    requires
        statement_shaped(tree),
        stands_at(tokens, at, statement_tokens(tree)),
        statement_ends_at(tokens, at + statement_tokens(tree).len()),
    ensures
        statement_at(tokens, at) == spanning(tree, statement_tokens(tree).len()),
{
    lemma_statement_read(tokens, at, tree);
}

/// The spelling of a statement of the grammar's shape is a program, and
/// the program is that statement.
pub proof fn law_program_reads_its_spelling(tree: StatementView)
    requires
        statement_shaped(tree),
    ensures
        program_of(statement_tokens(tree)) == Ok::<_, ParseErrorView>(tree),
{
    let tokens = statement_tokens(tree);
    assert(tokens.subrange(0, tokens.len() as int) =~= tokens);
    lemma_statement_read(tokens, 0, tree);
}

/// A token sequence is a program exactly when it spells one, and then it
/// is the program that it spells.
pub proof fn law_program_is_what_is_spelled(tokens: Seq<TokenView>, tree: StatementView)
    ensures
        program_of(tokens) == Ok::<_, ParseErrorView>(tree) <==> spells_program(tokens, tree),
{
    law_program_is_whole_input(tokens);
    if spells_program(tokens, tree) {
        law_program_reads_its_spelling(tree);
    }
}

/// No two trees of the grammar's shape are spelled alike.
pub proof fn law_spelling_is_unambiguous(first: StatementView, second: StatementView)
    requires
        statement_shaped(first),
        statement_shaped(second),
        statement_tokens(first) == statement_tokens(second),
    ensures
        first == second,
{
    law_program_reads_its_spelling(first);
    law_program_reads_its_spelling(second);
}

} // verus!
