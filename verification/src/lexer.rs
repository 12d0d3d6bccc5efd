//! The lexical vocabulary of the While language.

use vstd::prelude::*;

verus! {

/// One lexical unit of a While program.
#[derive(Debug)]
pub enum Token {
    Int(i32),
    Add,
    Sub,
    Mul,
    OpenParen,
    CloseParen,
    False,
    True,
    Eq,
    Lt,
    LEq,
    Gt,
    GEq,
    And,
    Or,
    Not,
    Assign,
    Skip,
    SemiColon,
    If,
    Then,
    Else,
    While,
    Do,
    Ident(String),
}

/// The mathematical value of a [`Token`]: the same vocabulary, with an
/// identifier's name as a sequence of characters.
pub enum TokenView {
    Int(i32),
    Add,
    Sub,
    Mul,
    OpenParen,
    CloseParen,
    False,
    True,
    Eq,
    Lt,
    LEq,
    Gt,
    GEq,
    And,
    Or,
    Not,
    Assign,
    Skip,
    SemiColon,
    If,
    Then,
    Else,
    While,
    Do,
    Ident(Seq<char>),
}

impl View for Token {
    type V = TokenView;

    open spec fn view(&self) -> TokenView {
        match self {
            Token::Int(value) => TokenView::Int(*value),
            Token::Add => TokenView::Add,
            Token::Sub => TokenView::Sub,
            Token::Mul => TokenView::Mul,
            Token::OpenParen => TokenView::OpenParen,
            Token::CloseParen => TokenView::CloseParen,
            Token::False => TokenView::False,
            Token::True => TokenView::True,
            Token::Eq => TokenView::Eq,
            Token::Lt => TokenView::Lt,
            Token::LEq => TokenView::LEq,
            Token::Gt => TokenView::Gt,
            Token::GEq => TokenView::GEq,
            Token::And => TokenView::And,
            Token::Or => TokenView::Or,
            Token::Not => TokenView::Not,
            Token::Assign => TokenView::Assign,
            Token::Skip => TokenView::Skip,
            Token::SemiColon => TokenView::SemiColon,
            Token::If => TokenView::If,
            Token::Then => TokenView::Then,
            Token::Else => TokenView::Else,
            Token::While => TokenView::While,
            Token::Do => TokenView::Do,
            Token::Ident(name) => TokenView::Ident(name@),
        }
    }
}

impl Clone for Token {
    fn clone(&self) -> (copy: Token)
        ensures
            copy@ == self@,
    {
        match self {
            Token::Int(value) => Token::Int(*value),
            Token::Add => Token::Add,
            Token::Sub => Token::Sub,
            Token::Mul => Token::Mul,
            Token::OpenParen => Token::OpenParen,
            Token::CloseParen => Token::CloseParen,
            Token::False => Token::False,
            Token::True => Token::True,
            Token::Eq => Token::Eq,
            Token::Lt => Token::Lt,
            Token::LEq => Token::LEq,
            Token::Gt => Token::Gt,
            Token::GEq => Token::GEq,
            Token::And => Token::And,
            Token::Or => Token::Or,
            Token::Not => Token::Not,
            Token::Assign => Token::Assign,
            Token::Skip => Token::Skip,
            Token::SemiColon => Token::SemiColon,
            Token::If => Token::If,
            Token::Then => Token::Then,
            Token::Else => Token::Else,
            Token::While => Token::While,
            Token::Do => Token::Do,
            Token::Ident(name) => Token::Ident(name.clone()),
        }
    }
}

impl PartialEq for Token {
    fn eq(&self, other: &Token) -> (same: bool) {
        match (self, other) {
            (Token::Int(a), Token::Int(b)) => *a == *b,
            (Token::Add, Token::Add) => true,
            (Token::Sub, Token::Sub) => true,
            (Token::Mul, Token::Mul) => true,
            (Token::OpenParen, Token::OpenParen) => true,
            (Token::CloseParen, Token::CloseParen) => true,
            (Token::False, Token::False) => true,
            (Token::True, Token::True) => true,
            (Token::Eq, Token::Eq) => true,
            (Token::Lt, Token::Lt) => true,
            (Token::LEq, Token::LEq) => true,
            (Token::Gt, Token::Gt) => true,
            (Token::GEq, Token::GEq) => true,
            (Token::And, Token::And) => true,
            (Token::Or, Token::Or) => true,
            (Token::Not, Token::Not) => true,
            (Token::Assign, Token::Assign) => true,
            (Token::Skip, Token::Skip) => true,
            (Token::SemiColon, Token::SemiColon) => true,
            (Token::If, Token::If) => true,
            (Token::Then, Token::Then) => true,
            (Token::Else, Token::Else) => true,
            (Token::While, Token::While) => true,
            (Token::Do, Token::Do) => true,
            (Token::Ident(a), Token::Ident(b)) => *a == *b,
            _ => false,
        }
    }
}

impl vstd::std_specs::cmp::PartialEqSpecImpl for Token {
    open spec fn obeys_eq_spec() -> bool {
        true
    }

    open spec fn eq_spec(&self, other: &Token) -> bool {
        self@ == other@
    }
}

/// The values of a sequence of tokens.
pub open spec fn token_views(tokens: Seq<Token>) -> Seq<TokenView> {
    tokens.map_values(|token: Token| token@)
}

} // verus!
