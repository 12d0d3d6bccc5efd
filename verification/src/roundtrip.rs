//! What parsing keeps: a tree that the grammar reads at some position
//! spells exactly the tokens it spans, and has the grammar's shape.

use vstd::prelude::*;
use crate::ast::{ArithmeticView, BooleanView, StatementView};
use crate::grammar::{
    arithmetic_ends_at, arithmetic_at, arithmetic_chain_at, arithmetic_component_at, arithmetic_operator,
    assignment_at, boolean_at, boolean_chain_at, boolean_component_at, comparison_operator,
    conditional_at, logical_operator, loop_at, missing_at, program_of, remaining, shifted,
    statement_at, statement_component_at, token_at, Parsed,
};
use crate::lexer::TokenView;
use crate::listing::labels_used;
use crate::parser::ParseErrorView;
use crate::surface::{
    arithmetic_operand, arithmetic_operator_token, arithmetic_shaped, arithmetic_tokens,
    boolean_operand, boolean_operator_token, boolean_shaped, boolean_tokens, is_comparison,
    is_logical, statement_shaped, statement_single, statement_tokens,
};

verus! {

/// Whether `spelling` is what stands in `tokens` from position `at` on.
pub open spec fn stands_at(tokens: Seq<TokenView>, at: int, spelling: Seq<TokenView>) -> bool {
    &&& 0 <= at
    &&& at + spelling.len() <= tokens.len()
    &&& tokens.subrange(at, at + spelling.len()) == spelling
}

/// Whether `spelling` is what stands in `tokens` from position `at` on,
/// and is not empty.
pub open spec fn spelled_at(tokens: Seq<TokenView>, at: int, spelling: Seq<TokenView>) -> bool {
    stands_at(tokens, at, spelling) && spelling.len() >= 1
}

/// Whether an arithmetic outcome at `at`, if it is a tree, spans its own
/// spelling.
pub open spec fn arithmetic_kept(tokens: Seq<TokenView>, at: int, parsed: Parsed<ArithmeticView>)
    -> bool {
    parsed matches Ok((tree, used)) ==> {
        &&& arithmetic_tokens(tree).len() == used
        &&& spelled_at(tokens, at, arithmetic_tokens(tree))
        &&& arithmetic_shaped(tree)
    }
}

/// Whether a boolean outcome at `at`, if it is a tree, spans its own
/// spelling.
pub open spec fn boolean_kept(tokens: Seq<TokenView>, at: int, parsed: Parsed<BooleanView>)
    -> bool {
    parsed matches Ok((tree, used)) ==> {
        &&& boolean_tokens(tree).len() == used
        &&& spelled_at(tokens, at, boolean_tokens(tree))
        &&& boolean_shaped(tree)
    }
}

/// Whether a statement outcome at `at`, if it is a tree, spans its own
/// spelling, which is longer than the number of labels it needs.
pub open spec fn statement_kept(tokens: Seq<TokenView>, at: int, parsed: Parsed<StatementView>)
    -> bool {
    parsed matches Ok((tree, used)) ==> {
        &&& statement_tokens(tree).len() == used
        &&& spelled_at(tokens, at, statement_tokens(tree))
        &&& statement_shaped(tree)
        &&& labels_used(tree) < used
    }
}

proof fn lemma_operator_tokens(token: TokenView)
    ensures
        arithmetic_operator(token) matches Some(op) ==> arithmetic_operator_token(op) == token,
        comparison_operator(token) matches Some(op) ==> boolean_operator_token(op) == token
            && is_comparison(op),
        logical_operator(token) matches Some(op) ==> boolean_operator_token(op) == token
            && is_logical(op),
{
}

/// The token at `at` alone, as a stretch of the input.
proof fn lemma_stretch_of_one(tokens: Seq<TokenView>, at: int)
    requires
        0 <= at < tokens.len(),
    ensures
        tokens.subrange(at, at + 1) == seq![tokens[at]],
{
    assert(tokens.subrange(at, at + 1) =~= seq![tokens[at]]);
}

/// A stretch of the input with the token behind it.
proof fn lemma_stretch_pushed(tokens: Seq<TokenView>, from: int, to: int)
    requires
        0 <= from <= to < tokens.len(),
    ensures
        tokens.subrange(from, to).push(tokens[to]) == tokens.subrange(from, to + 1),
{
    assert(tokens.subrange(from, to).push(tokens[to]) =~= tokens.subrange(from, to + 1));
}

/// Two stretches of the input that meet.
proof fn lemma_stretches_joined(tokens: Seq<TokenView>, from: int, mid: int, to: int)
    requires
        0 <= from <= mid <= to <= tokens.len(),
    ensures
        tokens.subrange(from, mid) + tokens.subrange(mid, to) == tokens.subrange(from, to),
{
    assert(tokens.subrange(from, mid) + tokens.subrange(mid, to) =~= tokens.subrange(from, to));
}

proof fn lemma_arithmetic_component_kept(tokens: Seq<TokenView>, at: int)
    ensures
        arithmetic_kept(tokens, at, arithmetic_component_at(tokens, at)),
        arithmetic_component_at(tokens, at) matches Ok((tree, _)) ==> arithmetic_operand(tree),
    decreases remaining(tokens, at), 0nat,
{
    match token_at(tokens, at) {
        Some(TokenView::Int(value)) => {
            let tree = ArithmeticView::Int(value);
            lemma_stretch_of_one(tokens, at);
            assert(arithmetic_tokens(tree) == seq![tokens[at]]);
            assert(arithmetic_operand(tree) && arithmetic_shaped(tree));
        },
        Some(TokenView::Ident(name)) => {
            let tree = ArithmeticView::Ident(name);
            lemma_stretch_of_one(tokens, at);
            assert(arithmetic_tokens(tree) == seq![tokens[at]]);
            assert(arithmetic_operand(tree) && arithmetic_shaped(tree));
        },
        Some(TokenView::OpenParen) => {
            lemma_arithmetic_kept(tokens, at + 1);
            if let Ok((inner, used)) = arithmetic_at(tokens, at + 1) {
                if missing_at(tokens, at + 1 + used, TokenView::CloseParen).is_none() {
                    let tree = ArithmeticView::Paren(Box::new(inner));
                    lemma_stretch_of_one(tokens, at);
                    lemma_stretch_pushed(tokens, at + 1, at + 1 + used);
                    lemma_stretches_joined(tokens, at, at + 1, at + used + 2);
                    assert(arithmetic_tokens(tree) == seq![TokenView::OpenParen]
                        + arithmetic_tokens(inner).push(TokenView::CloseParen));
                    assert(arithmetic_tokens(tree) == tokens.subrange(at, at + used + 2));
                    assert(arithmetic_operand(tree) && arithmetic_shaped(tree));
                }
            }
        },
        _ => {},
    }
}

proof fn lemma_arithmetic_chain_kept(
    tokens: Seq<TokenView>,
    start: int,
    at: int,
    lhs: ArithmeticView,
)
    requires
        arithmetic_kept(tokens, start, Ok((lhs, (at - start) as nat))),
        start <= at,
    ensures
        arithmetic_kept(
            tokens,
            start,
            shifted(arithmetic_chain_at(tokens, at, lhs), (at - start) as nat),
        ),
    decreases remaining(tokens, at), 1nat,
{
    if let Some(token) = token_at(tokens, at) {
        if let Some(op) = arithmetic_operator(token) {
            lemma_operator_tokens(token);
            lemma_arithmetic_component_kept(tokens, at + 1);
            if let Ok((rhs, used)) = arithmetic_component_at(tokens, at + 1) {
                let grown = ArithmeticView::Binary { lhs: Box::new(lhs), op, rhs: Box::new(rhs) };
                lemma_stretch_pushed(tokens, start, at);
                lemma_stretches_joined(tokens, start, at + 1, at + 1 + used);
                assert(arithmetic_tokens(grown) == arithmetic_tokens(lhs).push(
                    arithmetic_operator_token(op),
                ) + arithmetic_tokens(rhs));
                assert(arithmetic_tokens(grown) == tokens.subrange(start, at + 1 + used));
                assert(arithmetic_shaped(grown));
                lemma_arithmetic_chain_kept(tokens, start, at + 1 + used, grown);
            }
        }
    }
}

proof fn lemma_arithmetic_kept(tokens: Seq<TokenView>, at: int)
    ensures
        arithmetic_kept(tokens, at, arithmetic_at(tokens, at)),
    decreases remaining(tokens, at), 2nat,
{
    lemma_arithmetic_component_kept(tokens, at);
    if let Ok((first, used)) = arithmetic_component_at(tokens, at) {
        lemma_arithmetic_chain_kept(tokens, at, at + used, first);
    }
}

proof fn lemma_boolean_component_kept(tokens: Seq<TokenView>, at: int)
    ensures
        boolean_kept(tokens, at, boolean_component_at(tokens, at)),
        boolean_component_at(tokens, at) matches Ok((tree, _)) ==> boolean_operand(tree),
    decreases remaining(tokens, at), 3nat,
{
    match token_at(tokens, at) {
        None => {},
        Some(TokenView::OpenParen) => {
            lemma_boolean_kept(tokens, at + 1);
            if let Ok((inner, used)) = boolean_at(tokens, at + 1) {
                if missing_at(tokens, at + 1 + used, TokenView::CloseParen).is_none() {
                    let tree = BooleanView::Paren(Box::new(inner));
                    lemma_stretch_of_one(tokens, at);
                    lemma_stretch_pushed(tokens, at + 1, at + 1 + used);
                    lemma_stretches_joined(tokens, at, at + 1, at + used + 2);
                    assert(boolean_tokens(tree) == seq![TokenView::OpenParen] + boolean_tokens(
                        inner,
                    ).push(TokenView::CloseParen));
                    assert(boolean_tokens(tree) == tokens.subrange(at, at + used + 2));
                    assert(boolean_operand(tree) && boolean_shaped(tree));
                }
            }
        },
        Some(TokenView::False) => {
            let tree = BooleanView::False;
            lemma_stretch_of_one(tokens, at);
            assert(boolean_tokens(tree) == seq![tokens[at]]);
            assert(boolean_operand(tree) && boolean_shaped(tree));
        },
        Some(TokenView::True) => {
            let tree = BooleanView::True;
            lemma_stretch_of_one(tokens, at);
            assert(boolean_tokens(tree) == seq![tokens[at]]);
            assert(boolean_operand(tree) && boolean_shaped(tree));
        },
        Some(_) => {
            lemma_arithmetic_kept(tokens, at);
            if let Ok((lhs, used)) = arithmetic_at(tokens, at) {
                if let Some(token) = token_at(tokens, at + used) {
                    if let Some(op) = comparison_operator(token) {
                        lemma_operator_tokens(token);
                        lemma_arithmetic_kept(tokens, at + used + 1);
                        if let Ok((rhs, more)) = arithmetic_at(tokens, at + used + 1) {
                            let tree = BooleanView::Cmp { lhs, op, rhs };
                            lemma_stretch_pushed(tokens, at, at + used);
                            lemma_stretches_joined(
                                tokens,
                                at,
                                at + used + 1,
                                at + used + 1 + more,
                            );
                            assert(boolean_tokens(tree) == arithmetic_tokens(lhs).push(
                                boolean_operator_token(op),
                            ) + arithmetic_tokens(rhs));
                            assert(boolean_tokens(tree) == tokens.subrange(
                                at,
                                at + used + 1 + more,
                            ));
                            assert(arithmetic_tokens(lhs).first() == tokens[at]);
                            assert(boolean_operand(tree) && boolean_shaped(tree));
                        }
                    }
                }
            }
        },
    }
}

proof fn lemma_boolean_chain_kept(tokens: Seq<TokenView>, start: int, at: int, lhs: BooleanView)
    requires
        boolean_kept(tokens, start, Ok((lhs, (at - start) as nat))),
        start <= at,
    ensures
        boolean_kept(
            tokens,
            start,
            shifted(boolean_chain_at(tokens, at, lhs), (at - start) as nat),
        ),
    decreases remaining(tokens, at), 4nat,
{
    if let Some(token) = token_at(tokens, at) {
        if let Some(op) = logical_operator(token) {
            lemma_operator_tokens(token);
            lemma_boolean_component_kept(tokens, at + 1);
            if let Ok((rhs, used)) = boolean_component_at(tokens, at + 1) {
                let grown = BooleanView::Binary { lhs: Box::new(lhs), op, rhs: Box::new(rhs) };
                lemma_stretch_pushed(tokens, start, at);
                lemma_stretches_joined(tokens, start, at + 1, at + 1 + used);
                assert(boolean_tokens(grown) == boolean_tokens(lhs).push(
                    boolean_operator_token(op),
                ) + boolean_tokens(rhs));
                assert(boolean_tokens(grown) == tokens.subrange(start, at + 1 + used));
                assert(boolean_shaped(grown));
                lemma_boolean_chain_kept(tokens, start, at + 1 + used, grown);
            }
        }
    }
}

proof fn lemma_boolean_kept(tokens: Seq<TokenView>, at: int)
    ensures
        boolean_kept(tokens, at, boolean_at(tokens, at)),
    decreases remaining(tokens, at), 5nat,
{
    lemma_boolean_component_kept(tokens, at);
    if let Ok((first, used)) = boolean_component_at(tokens, at) {
        lemma_boolean_chain_kept(tokens, at, at + used, first);
    }
}

proof fn lemma_assignment_kept(tokens: Seq<TokenView>, at: int, ident: Seq<char>)
    requires
        token_at(tokens, at - 1) == Some(TokenView::Ident(ident)),
    ensures
        statement_kept(tokens, at - 1, shifted(assignment_at(tokens, at, ident), 1)),
        assignment_at(tokens, at, ident) matches Ok((tree, _)) ==> statement_single(tree),
{
    if missing_at(tokens, at, TokenView::Assign).is_none() {
        lemma_arithmetic_kept(tokens, at + 1);
        if let Ok((value, used)) = arithmetic_at(tokens, at + 1) {
            let tree = StatementView::Assignment { ident, value };
            let head = seq![TokenView::Ident(ident), TokenView::Assign];
            assert(tokens.subrange(at - 1, at + 1) =~= head);
            lemma_stretches_joined(tokens, at - 1, at + 1, at + 1 + used);
            assert(statement_tokens(tree) == head + arithmetic_tokens(value));
            assert(statement_tokens(tree) == tokens.subrange(at - 1, at + 1 + used));
            assert(labels_used(tree) == 0);
            assert(statement_single(tree) && statement_shaped(tree));
        }
    }
}

proof fn lemma_statement_component_kept(tokens: Seq<TokenView>, at: int)
    ensures
        statement_kept(tokens, at, statement_component_at(tokens, at)),
        statement_component_at(tokens, at) matches Ok((tree, _)) ==> statement_single(tree),
    decreases remaining(tokens, at), 6nat,
{
    match token_at(tokens, at) {
        Some(TokenView::OpenParen) => {
            lemma_statement_kept(tokens, at + 1);
            if let Ok((inner, used)) = statement_at(tokens, at + 1) {
                if missing_at(tokens, at + 1 + used, TokenView::CloseParen).is_none() {
                    let tree = StatementView::Paren(Box::new(inner));
                    lemma_stretch_of_one(tokens, at);
                    lemma_stretch_pushed(tokens, at + 1, at + 1 + used);
                    lemma_stretches_joined(tokens, at, at + 1, at + used + 2);
                    assert(statement_tokens(tree) == seq![TokenView::OpenParen]
                        + statement_tokens(inner).push(TokenView::CloseParen));
                    assert(statement_tokens(tree) == tokens.subrange(at, at + used + 2));
                    assert(labels_used(tree) == labels_used(inner));
                    assert(statement_single(tree) && statement_shaped(tree));
                }
            }
        },
        Some(TokenView::Skip) => {
            let tree = StatementView::Skip;
            lemma_stretch_of_one(tokens, at);
            assert(statement_tokens(tree) == seq![tokens[at]]);
            assert(labels_used(tree) == 0);
            assert(statement_single(tree) && statement_shaped(tree));
        },
        Some(TokenView::If) => {
            lemma_conditional_kept(tokens, at + 1);
        },
        Some(TokenView::While) => {
            lemma_loop_kept(tokens, at + 1);
        },
        Some(TokenView::Ident(name)) => {
            lemma_assignment_kept(tokens, at + 1, name);
        },
        _ => {},
    }
}

/// The spelling of a conditional, from the stretches of its parts.
proof fn lemma_conditional_spelled(
    tokens: Seq<TokenView>,
    at: int,
    condition: BooleanView,
    if_branch: StatementView,
    else_branch: StatementView,
)
    requires
        token_at(tokens, at - 1) == Some(TokenView::If),
        stands_at(tokens, at, boolean_tokens(condition)),
        token_at(tokens, at + boolean_tokens(condition).len()) == Some(TokenView::Then),
        stands_at(
            tokens,
            at + boolean_tokens(condition).len() + 1,
            statement_tokens(if_branch),
        ),
        token_at(
            tokens,
            at + boolean_tokens(condition).len() + 1 + statement_tokens(if_branch).len(),
        ) == Some(TokenView::Else),
        stands_at(
            tokens,
            at + boolean_tokens(condition).len() + statement_tokens(if_branch).len() + 2,
            statement_tokens(else_branch),
        ),
    ensures
        stands_at(
            tokens,
            at - 1,
            statement_tokens(
                StatementView::If {
                    condition,
                    if_branch: Box::new(if_branch),
                    else_branch: Box::new(else_branch),
                },
            ),
        ),
        statement_tokens(
            StatementView::If {
                condition,
                if_branch: Box::new(if_branch),
                else_branch: Box::new(else_branch),
            },
        ).len() == boolean_tokens(condition).len() + statement_tokens(if_branch).len()
            + statement_tokens(else_branch).len() + 3,
{
    let tree = StatementView::If {
        condition,
        if_branch: Box::new(if_branch),
        else_branch: Box::new(else_branch),
    };
    let first = at + boolean_tokens(condition).len() + 1;
    let second = first + statement_tokens(if_branch).len() + 1;
    let end = second + statement_tokens(else_branch).len();
    lemma_stretch_of_one(tokens, at - 1);
    lemma_stretch_pushed(tokens, at, first - 1);
    lemma_stretches_joined(tokens, at - 1, at, first);
    lemma_stretch_pushed(tokens, first, second - 1);
    lemma_stretches_joined(tokens, at - 1, first, second);
    lemma_stretches_joined(tokens, at - 1, second, end);
    assert(statement_tokens(tree) == seq![TokenView::If] + boolean_tokens(condition).push(
        TokenView::Then,
    ) + statement_tokens(if_branch).push(TokenView::Else) + statement_tokens(else_branch));
    assert(statement_tokens(tree) == tokens.subrange(at - 1, end));
}

proof fn lemma_conditional_kept(tokens: Seq<TokenView>, at: int)
    requires
        token_at(tokens, at - 1) == Some(TokenView::If),
    ensures
        statement_kept(tokens, at - 1, shifted(conditional_at(tokens, at), 1)),
        conditional_at(tokens, at) matches Ok((tree, _)) ==> statement_single(tree),
    decreases remaining(tokens, at), 7nat,
{
    lemma_boolean_kept(tokens, at);
    if let Ok((condition, used)) = boolean_at(tokens, at) {
        if missing_at(tokens, at + used, TokenView::Then).is_none() {
            let first = at + used + 1;
            lemma_statement_component_kept(tokens, first);
            if let Ok((if_branch, more)) = statement_component_at(tokens, first) {
                if missing_at(tokens, first + more, TokenView::Else).is_none() {
                    let second = at + used + more + 2;
                    lemma_statement_component_kept(tokens, second);
                    if let Ok((else_branch, last)) = statement_component_at(tokens, second) {
                        let tree = StatementView::If {
                            condition,
                            if_branch: Box::new(if_branch),
                            else_branch: Box::new(else_branch),
                        };
                        lemma_conditional_spelled(tokens, at, condition, if_branch, else_branch);
                        assert(labels_used(tree) == 2 + labels_used(if_branch) + labels_used(
                            else_branch,
                        ));
                        assert(statement_single(tree));
                        assert(conditional_at(tokens, at) == Ok::<_, ParseErrorView>(
                            (tree, (used + more + last + 2) as nat),
                        ));
                    }
                }
            }
        }
    }
}

proof fn lemma_loop_kept(tokens: Seq<TokenView>, at: int)
    requires
        token_at(tokens, at - 1) == Some(TokenView::While),
    ensures
        statement_kept(tokens, at - 1, shifted(loop_at(tokens, at), 1)),
        loop_at(tokens, at) matches Ok((tree, _)) ==> statement_single(tree),
    decreases remaining(tokens, at), 7nat,
{
    lemma_boolean_kept(tokens, at);
    if let Ok((condition, used)) = boolean_at(tokens, at) {
        if missing_at(tokens, at + used, TokenView::Do).is_none() {
            let first = at + used + 1;
            lemma_statement_component_kept(tokens, first);
            if let Ok((body, more)) = statement_component_at(tokens, first) {
                let tree = StatementView::While { condition, body: Box::new(body) };
                lemma_stretch_of_one(tokens, at - 1);
                lemma_stretch_pushed(tokens, at, at + used);
                lemma_stretches_joined(tokens, at - 1, at, first);
                lemma_stretches_joined(tokens, at - 1, first, first + more);
                assert(statement_tokens(tree) == seq![TokenView::While] + boolean_tokens(
                    condition,
                ).push(TokenView::Do) + statement_tokens(body));
                assert(statement_tokens(tree) == tokens.subrange(at - 1, first + more));
                assert(labels_used(tree) == 2 + labels_used(body));
                assert(statement_single(tree) && statement_shaped(tree));
                assert(loop_at(tokens, at) == Ok::<_, ParseErrorView>(
                    (tree, (used + more + 1) as nat),
                ));
            }
        }
    }
}

proof fn lemma_statement_kept(tokens: Seq<TokenView>, at: int)
    ensures
        statement_kept(tokens, at, statement_at(tokens, at)),
    decreases remaining(tokens, at), 8nat,
{
    lemma_statement_component_kept(tokens, at);
    if let Ok((first, used)) = statement_component_at(tokens, at) {
        if token_at(tokens, at + used) == Some(TokenView::SemiColon) {
            lemma_statement_kept(tokens, at + used + 1);
            if let Ok((rest, more)) = statement_at(tokens, at + used + 1) {
                let tree = StatementView::Composision(Box::new(first), Box::new(rest));
                lemma_stretch_pushed(tokens, at, at + used);
                lemma_stretches_joined(tokens, at, at + used + 1, at + used + 1 + more);
                assert(statement_tokens(tree) == statement_tokens(first).push(
                    TokenView::SemiColon,
                ) + statement_tokens(rest));
                assert(statement_tokens(tree) == tokens.subrange(at, at + used + 1 + more));
                assert(labels_used(tree) == labels_used(first) + labels_used(rest));
                assert(statement_shaped(tree));
            }
        } else {
            assert(statement_shaped(first));
        }
    }
}

proof fn lemma_arithmetic_chain_ends(tokens: Seq<TokenView>, at: int, lhs: ArithmeticView)
    ensures
        arithmetic_chain_at(tokens, at, lhs) matches Ok((_, used)) ==> arithmetic_ends_at(
            tokens,
            at + used,
        ),
    decreases remaining(tokens, at),
{
    if let Some(token) = token_at(tokens, at) {
        if let Some(op) = arithmetic_operator(token) {
            if let Ok((rhs, used)) = arithmetic_component_at(tokens, at + 1) {
                lemma_arithmetic_chain_ends(
                    tokens,
                    at + 1 + used,
                    ArithmeticView::Binary { lhs: Box::new(lhs), op, rhs: Box::new(rhs) },
                );
            }
        }
    }
}

proof fn lemma_boolean_chain_ends(tokens: Seq<TokenView>, at: int, lhs: BooleanView)
    ensures
        boolean_chain_at(tokens, at, lhs) matches Ok((_, used)) ==> (token_at(
            tokens,
            at + used,
        ) matches Some(token) ==> logical_operator(token).is_none()),
    decreases remaining(tokens, at),
{
    if let Some(token) = token_at(tokens, at) {
        if let Some(op) = logical_operator(token) {
            if let Ok((rhs, used)) = boolean_component_at(tokens, at + 1) {
                lemma_boolean_chain_ends(
                    tokens,
                    at + 1 + used,
                    BooleanView::Binary { lhs: Box::new(lhs), op, rhs: Box::new(rhs) },
                );
            }
        }
    }
}

/// An arithmetic expression is read as far as it goes: no arithmetic
/// operator stands behind the tokens that it spans.
pub proof fn law_arithmetic_is_read_to_its_end(tokens: Seq<TokenView>, at: int)
    ensures
        arithmetic_at(tokens, at) matches Ok((_, used)) ==> arithmetic_ends_at(tokens, at + used),
{
    if let Ok((first, used)) = arithmetic_component_at(tokens, at) {
        lemma_arithmetic_chain_ends(tokens, at + used, first);
    }
}

/// A boolean expression is read as far as it goes: no logical operator
/// stands behind the tokens that it spans.
pub proof fn law_boolean_is_read_to_its_end(tokens: Seq<TokenView>, at: int)
    ensures
        boolean_at(tokens, at) matches Ok((_, used)) ==> (token_at(
            tokens,
            at + used,
        ) matches Some(token) ==> logical_operator(token).is_none()),
{
    if let Ok((first, used)) = boolean_component_at(tokens, at) {
        lemma_boolean_chain_ends(tokens, at + used, first);
    }
}

/// A statement is read as far as it goes: no `;` stands behind the tokens
/// that it spans.
pub proof fn law_statement_is_read_to_its_end(tokens: Seq<TokenView>, at: int)
    ensures
        statement_at(tokens, at) matches Ok((_, used)) ==> token_at(tokens, at + used) != Some(
            TokenView::SemiColon,
        ),
    decreases remaining(tokens, at),
{
    if let Ok((_, used)) = statement_component_at(tokens, at) {
        if token_at(tokens, at + used) == Some(TokenView::SemiColon) {
            law_statement_is_read_to_its_end(tokens, at + used + 1);
        }
    }
}

/// An arithmetic expression that is read at a position is spelled by the
/// tokens it spans, in their order, and groups its operators to the left.
pub proof fn law_arithmetic_spans_its_spelling(tokens: Seq<TokenView>, at: int)
    ensures
        arithmetic_kept(tokens, at, arithmetic_at(tokens, at)),
{
    lemma_arithmetic_kept(tokens, at);
}

/// A boolean expression that is read at a position is spelled by the
/// tokens it spans, in their order, and groups its operators to the left.
pub proof fn law_boolean_spans_its_spelling(tokens: Seq<TokenView>, at: int)
    ensures
        boolean_kept(tokens, at, boolean_at(tokens, at)),
{
    lemma_boolean_kept(tokens, at);
}

/// A statement that is read at a position is spelled by the tokens it
/// spans, in their order, and nests its sequences to the right.
pub proof fn law_statement_spans_its_spelling(tokens: Seq<TokenView>, at: int)
    ensures
        statement_kept(tokens, at, statement_at(tokens, at)),
{
    lemma_statement_kept(tokens, at);
}

/// A token sequence is a program only as a whole: the program that it
/// parses to is spelled by all of its tokens, so none is dropped and an
/// empty sequence is no program.
pub proof fn law_program_is_whole_input(tokens: Seq<TokenView>)
    ensures
        program_of(tokens) matches Ok(program) ==> {
            &&& statement_tokens(program) == tokens
            &&& statement_shaped(program)
            &&& labels_used(program) < tokens.len()
        },
        tokens.len() == 0 ==> program_of(tokens) == Err::<StatementView, _>(
            ParseErrorView::UnexpectedEnd,
        ),
{
    if tokens.len() == 0 {
        assert(token_at(tokens, 0).is_none());
        assert(statement_component_at(tokens, 0) == Err::<(StatementView, nat), _>(
            ParseErrorView::UnexpectedEnd,
        ));
    }
    lemma_statement_kept(tokens, 0);
    if let Ok((program, used)) = statement_at(tokens, 0) {
        if token_at(tokens, used as int).is_none() {
            assert(tokens.subrange(0, used as int) =~= tokens);
        }
    }
}

} // verus!
