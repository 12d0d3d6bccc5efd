use whilec::ast::{Arithmetic, ArithmeticOp, Boolean, BooleanOp, Statement};
use whilec::lexer::Token;
use whilec::parser::{parse, Parser};

fn arithmetic_operator_token(op: ArithmeticOp) -> Token {
    match op {
        ArithmeticOp::Add => Token::Add,
        ArithmeticOp::Sub => Token::Sub,
        ArithmeticOp::Mul => Token::Mul,
    }
}

fn boolean_operator_token(op: BooleanOp) -> Token {
    match op {
        BooleanOp::Eq => Token::Eq,
        BooleanOp::Lt => Token::Lt,
        BooleanOp::LEq => Token::LEq,
        BooleanOp::Gt => Token::Gt,
        BooleanOp::GEq => Token::GEq,
        BooleanOp::And => Token::And,
        BooleanOp::Or => Token::Or,
        BooleanOp::Not => Token::Not,
    }
}

fn spell_arithmetic(tree: &Arithmetic, out: &mut Vec<Token>) {
    match tree {
        Arithmetic::Int(value) => out.push(Token::Int(*value)),
        Arithmetic::Ident(name) => out.push(Token::Ident(name.clone())),
        Arithmetic::Binary { lhs, op, rhs } => {
            spell_arithmetic(lhs, out);
            out.push(arithmetic_operator_token(*op));
            spell_arithmetic(rhs, out);
        }
        Arithmetic::Paren(inner) => {
            out.push(Token::OpenParen);
            spell_arithmetic(inner, out);
            out.push(Token::CloseParen);
        }
    }
}

fn spell_boolean(tree: &Boolean, out: &mut Vec<Token>) {
    match tree {
        Boolean::False => out.push(Token::False),
        Boolean::True => out.push(Token::True),
        Boolean::Cmp { lhs, op, rhs } => {
            spell_arithmetic(lhs, out);
            out.push(boolean_operator_token(*op));
            spell_arithmetic(rhs, out);
        }
        Boolean::Binary { lhs, op, rhs } => {
            spell_boolean(lhs, out);
            out.push(boolean_operator_token(*op));
            spell_boolean(rhs, out);
        }
        Boolean::Paren(inner) => {
            out.push(Token::OpenParen);
            spell_boolean(inner, out);
            out.push(Token::CloseParen);
        }
    }
}

fn spell_statement(tree: &Statement, out: &mut Vec<Token>) {
    match tree {
        Statement::Assignment { ident, value } => {
            out.push(Token::Ident(ident.clone()));
            out.push(Token::Assign);
            spell_arithmetic(value, out);
        }
        Statement::Skip => out.push(Token::Skip),
        Statement::Composision(first, second) => {
            spell_statement(first, out);
            out.push(Token::SemiColon);
            spell_statement(second, out);
        }
        Statement::If { condition, if_branch, else_branch } => {
            out.push(Token::If);
            spell_boolean(condition, out);
            out.push(Token::Then);
            spell_statement(if_branch, out);
            out.push(Token::Else);
            spell_statement(else_branch, out);
        }
        Statement::While { condition, body } => {
            out.push(Token::While);
            spell_boolean(condition, out);
            out.push(Token::Do);
            spell_statement(body, out);
        }
        Statement::Paren(inner) => {
            out.push(Token::OpenParen);
            spell_statement(inner, out);
            out.push(Token::CloseParen);
        }
    }
}

fn sample_tokens() -> Vec<Token> {
    let x = || Token::Ident("x".to_string());
    let y = || Token::Ident("y".to_string());
    vec![
        x(),
        Token::Assign,
        Token::Int(10),
        Token::SemiColon,
        Token::While,
        Token::OpenParen,
        x(),
        Token::Gt,
        Token::Int(0),
        Token::And,
        Token::True,
        Token::CloseParen,
        Token::Or,
        y(),
        Token::Mul,
        Token::Int(2),
        Token::LEq,
        x(),
        Token::Do,
        Token::OpenParen,
        Token::If,
        x(),
        Token::Eq,
        Token::OpenParen,
        y(),
        Token::Sub,
        Token::Int(1),
        Token::CloseParen,
        Token::Add,
        Token::Int(3),
        Token::Then,
        Token::Skip,
        Token::Else,
        y(),
        Token::Assign,
        y(),
        Token::Sub,
        Token::Int(1),
        Token::Sub,
        x(),
        Token::SemiColon,
        x(),
        Token::Assign,
        x(),
        Token::Sub,
        Token::Int(1),
        Token::CloseParen,
        Token::SemiColon,
        Token::Skip,
    ]
}

#[test]
fn arithmetic_tree_spells_the_tokens_it_was_read_from() {
    let tokens = vec![
        Token::Ident("a".to_string()),
        Token::Mul,
        Token::OpenParen,
        Token::OpenParen,
        Token::Int(2),
        Token::CloseParen,
        Token::Sub,
        Token::Ident("b".to_string()),
        Token::CloseParen,
        Token::Add,
        Token::Int(7),
        Token::Sub,
        Token::Int(8),
    ];
    let mut parser = Parser { tokens: tokens.clone(), index: 0 };
    let tree = parser.parse_arithmetic().unwrap();
    assert_eq!(parser.index, tokens.len());
    let mut spelled = Vec::new();
    spell_arithmetic(&tree, &mut spelled);
    assert_eq!(spelled, tokens);
}

#[test]
fn arithmetic_tree_spells_only_the_tokens_it_spans() {
    let tokens = vec![
        Token::Then,
        Token::Int(1),
        Token::Add,
        Token::Int(2),
        Token::Else,
        Token::Int(3),
    ];
    let mut parser = Parser { tokens: tokens.clone(), index: 1 };
    let tree = parser.parse_arithmetic().unwrap();
    assert_eq!(parser.index, 4);
    let mut spelled = Vec::new();
    spell_arithmetic(&tree, &mut spelled);
    assert_eq!(spelled, tokens[1..4].to_vec());
}

#[test]
fn program_spells_its_tokens() {
    let tokens = sample_tokens();
    let program = parse(tokens.clone()).unwrap();
    let mut spelled = Vec::new();
    spell_statement(&program, &mut spelled);
    assert_eq!(spelled, tokens);
}

#[test]
fn program_is_read_from_its_spelling() {
    let assign = |name: &str, value: Arithmetic| Statement::Assignment {
        ident: name.to_string(),
        value,
    };
    let sum = Arithmetic::Binary {
        lhs: Box::new(Arithmetic::Binary {
            lhs: Box::new(Arithmetic::Ident("a".to_string())),
            op: ArithmeticOp::Add,
            rhs: Box::new(Arithmetic::Paren(Box::new(Arithmetic::Int(-4)))),
        }),
        op: ArithmeticOp::Mul,
        rhs: Box::new(Arithmetic::Int(2)),
    };
    let guard = Boolean::Binary {
        lhs: Box::new(Boolean::Cmp {
            lhs: Box::new(sum.clone()),
            op: BooleanOp::GEq,
            rhs: Box::new(Arithmetic::Int(0)),
        }),
        op: BooleanOp::Or,
        rhs: Box::new(Boolean::Paren(Box::new(Boolean::False))),
    };
    let program = Statement::Composision(
        Box::new(Statement::If {
            condition: guard.clone(),
            if_branch: Box::new(Statement::Paren(Box::new(Statement::Composision(
                Box::new(Statement::Skip),
                Box::new(assign("a", sum.clone())),
            )))),
            else_branch: Box::new(Statement::While {
                condition: guard,
                body: Box::new(Statement::Skip),
            }),
        }),
        Box::new(Statement::Composision(
            Box::new(assign("b", sum)),
            Box::new(Statement::Skip),
        )),
    );
    let mut spelled = Vec::new();
    spell_statement(&program, &mut spelled);
    assert_eq!(parse(spelled), Ok(program));
}

#[test]
fn tree_of_another_shape_is_read_as_the_grammar_groups_it() {
    let right_leaning = Arithmetic::Binary {
        lhs: Box::new(Arithmetic::Int(1)),
        op: ArithmeticOp::Sub,
        rhs: Box::new(Arithmetic::Binary {
            lhs: Box::new(Arithmetic::Int(2)),
            op: ArithmeticOp::Sub,
            rhs: Box::new(Arithmetic::Int(3)),
        }),
    };
    let mut spelled = Vec::new();
    spell_arithmetic(&right_leaning, &mut spelled);
    let mut parser = Parser { tokens: spelled, index: 0 };
    let read = parser.parse_arithmetic().unwrap();
    assert_ne!(read, right_leaning);
    assert_eq!(
        read,
        Arithmetic::Binary {
            lhs: Box::new(Arithmetic::Binary {
                lhs: Box::new(Arithmetic::Int(1)),
                op: ArithmeticOp::Sub,
                rhs: Box::new(Arithmetic::Int(2)),
            }),
            op: ArithmeticOp::Sub,
            rhs: Box::new(Arithmetic::Int(3)),
        }
    );
}
