use whilec::ast::{Arithmetic, ArithmeticOp, Boolean, BooleanOp, Statement};
use whilec::code_gen::CodeGenerator;
use whilec::compiler::{compile, generate};
use whilec::lexer::Token;
use whilec::parser::{parse, ParseError, Parser};

fn fresh() -> CodeGenerator {
    CodeGenerator { output_string: String::new(), label: 1 }
}

fn binary(lhs: Arithmetic, op: ArithmeticOp, rhs: Arithmetic) -> Arithmetic {
    Arithmetic::Binary { lhs: Box::new(lhs), op, rhs: Box::new(rhs) }
}

fn pair(first: Statement, second: Statement) -> Statement {
    Statement::Composision(Box::new(first), Box::new(second))
}

fn conditional(condition: Boolean, first: Statement, second: Statement) -> Statement {
    Statement::If { condition, if_branch: Box::new(first), else_branch: Box::new(second) }
}

fn repeated(condition: Boolean, body: Statement) -> Statement {
    Statement::While { condition, body: Box::new(body) }
}

fn arithmetic_listing(tree: Arithmetic) -> String {
    let mut generator = fresh();
    generator.code_gen_arithmetic(tree);
    assert_eq!(generator.label, 1);
    generator.output_string
}

fn boolean_listing(tree: Boolean) -> String {
    let mut generator = fresh();
    generator.code_gen_boolean(tree);
    assert_eq!(generator.label, 1);
    generator.output_string
}

#[test]
fn mnemonics_of_arithmetic_operators() {
    assert_eq!(ArithmeticOp::Add.mnemonic(), "add");
    assert_eq!(ArithmeticOp::Sub.mnemonic(), "sub");
    assert_eq!(ArithmeticOp::Mul.mnemonic(), "mul");
}

#[test]
fn mnemonics_of_boolean_operators() {
    assert_eq!(BooleanOp::Eq.mnemonic(), "eq");
    assert_eq!(BooleanOp::Lt.mnemonic(), "lt");
    assert_eq!(BooleanOp::LEq.mnemonic(), "le");
    assert_eq!(BooleanOp::Gt.mnemonic(), "gt");
    assert_eq!(BooleanOp::GEq.mnemonic(), "ge");
    assert_eq!(BooleanOp::And.mnemonic(), "land");
    assert_eq!(BooleanOp::Or.mnemonic(), "lor");
    assert_eq!(BooleanOp::Not.mnemonic(), "lnot");
}

#[test]
fn new_generator_holds_the_entry_label() {
    let generator = CodeGenerator::new();
    assert_eq!(generator.output_string, "0:\n");
    assert_eq!(generator.label, 1);
}

#[test]
fn next_label_counts_up() {
    let mut generator = CodeGenerator::new();
    assert_eq!(generator.next_label(), "1:");
    assert_eq!(generator.next_label(), "2:");
    assert_eq!(generator.label, 3);
    assert_eq!(generator.output_string, "0:\n");
}

#[test]
fn next_label_writes_every_digit() {
    let mut generator = CodeGenerator { output_string: String::new(), label: 0 };
    assert_eq!(generator.next_label(), "0:");
    generator.label = 9;
    assert_eq!(generator.next_label(), "9:");
    assert_eq!(generator.next_label(), "10:");
    generator.label = 1234567890;
    assert_eq!(generator.next_label(), "1234567890:");
    generator.label = usize::MAX - 1;
    assert_eq!(generator.next_label(), format!("{}:", usize::MAX - 1));
    assert_eq!(generator.label, usize::MAX);
}

#[test]
fn literal_is_pushed() {
    assert_eq!(arithmetic_listing(Arithmetic::Int(0)), "    push 0\n");
    assert_eq!(arithmetic_listing(Arithmetic::Int(7)), "    push 7\n");
    assert_eq!(arithmetic_listing(Arithmetic::Int(40302)), "    push 40302\n");
    assert_eq!(arithmetic_listing(Arithmetic::Int(i32::MAX)), "    push 2147483647\n");
}

#[test]
fn negative_literal_keeps_its_sign() {
    assert_eq!(arithmetic_listing(Arithmetic::Int(-5)), "    push -5\n");
    assert_eq!(arithmetic_listing(Arithmetic::Int(-10)), "    push -10\n");
    assert_eq!(arithmetic_listing(Arithmetic::Int(i32::MIN)), "    push -2147483648\n");
}

#[test]
fn literals_are_written_as_the_formatter_writes_them() {
    for value in [-1000001, -99, -1, 1, 9, 10, 11, 99, 100, 101, 65536, 999999999] {
        assert_eq!(arithmetic_listing(Arithmetic::Int(value)), format!("    push {}\n", value));
    }
}

#[test]
fn variable_is_fetched() {
    assert_eq!(arithmetic_listing(Arithmetic::Ident("count".to_string())), "    fetch count\n");
}

#[test]
fn operands_come_before_the_operator() {
    let tree = binary(Arithmetic::Ident("x".to_string()), ArithmeticOp::Sub, Arithmetic::Int(1));
    assert_eq!(arithmetic_listing(tree), "    fetch x\n    push 1\n    sub\n");
    let tree = binary(
        binary(Arithmetic::Int(1), ArithmeticOp::Add, Arithmetic::Int(2)),
        ArithmeticOp::Mul,
        Arithmetic::Int(3),
    );
    assert_eq!(
        arithmetic_listing(tree),
        "    push 1\n    push 2\n    add\n    push 3\n    mul\n"
    );
}

#[test]
fn parentheses_emit_nothing() {
    let bare = binary(Arithmetic::Int(1), ArithmeticOp::Add, Arithmetic::Int(2));
    let wrapped = Arithmetic::Paren(Box::new(bare.clone()));
    assert_eq!(arithmetic_listing(wrapped), arithmetic_listing(bare));
    let wrapped = Boolean::Paren(Box::new(Boolean::Paren(Box::new(Boolean::True))));
    assert_eq!(boolean_listing(wrapped), "true\n");
    let mut generator = CodeGenerator::new();
    generator.code_gen(Statement::Paren(Box::new(Statement::Skip)));
    assert_eq!(generator.output_string, "0:\n    noop\n");
}

#[test]
fn parsed_parentheses_generate_the_same_code() {
    let bare = vec![Token::Int(1), Token::Add, Token::Int(2)];
    let wrapped = vec![
        Token::OpenParen,
        Token::Int(1),
        Token::Add,
        Token::Int(2),
        Token::CloseParen,
    ];
    let bare_tree = Parser { tokens: bare, index: 0 }.parse_arithmetic().unwrap();
    let wrapped_tree = Parser { tokens: wrapped, index: 0 }.parse_arithmetic().unwrap();
    assert_ne!(bare_tree, wrapped_tree);
    let listing = arithmetic_listing(bare_tree);
    assert_eq!(listing, "    push 1\n    push 2\n    add\n");
    assert_eq!(arithmetic_listing(wrapped_tree), listing);
}

#[test]
fn boolean_literals_are_bare_lines() {
    assert_eq!(boolean_listing(Boolean::True), "true\n");
    assert_eq!(boolean_listing(Boolean::False), "false\n");
}

#[test]
fn comparison_is_lowered() {
    let tree = Boolean::Cmp {
        lhs: Box::new(Arithmetic::Ident("x".to_string())),
        op: BooleanOp::GEq,
        rhs: Box::new(Arithmetic::Int(2)),
    };
    assert_eq!(boolean_listing(tree), "    fetch x\n    push 2\n    ge\n");
}

#[test]
fn logical_operator_is_lowered() {
    let tree = Boolean::Binary {
        lhs: Box::new(Boolean::True),
        op: BooleanOp::Or,
        rhs: Box::new(Boolean::Cmp {
            lhs: Box::new(Arithmetic::Int(1)),
            op: BooleanOp::Eq,
            rhs: Box::new(Arithmetic::Int(1)),
        }),
    };
    assert_eq!(boolean_listing(tree), "true\n    push 1\n    push 1\n    eq\n    lor\n");
}

#[test]
fn assignment_stores_its_value() {
    let mut generator = CodeGenerator::new();
    generator.code_gen(Statement::Assignment {
        ident: "x".to_string(),
        value: binary(Arithmetic::Int(1), ArithmeticOp::Add, Arithmetic::Int(2)),
    });
    assert_eq!(
        generator.output_string,
        "0:\n    push 1\n    push 2\n    add\n    store x\n"
    );
    assert_eq!(generator.label, 1);
}

#[test]
fn three_skips_are_three_noops() {
    let tokens = vec![Token::Skip, Token::SemiColon, Token::Skip, Token::SemiColon, Token::Skip];
    let tree = parse(tokens).unwrap();
    let mut generator = fresh();
    generator.code_gen(tree);
    assert_eq!(generator.output_string, "    noop\n    noop\n    noop\n");
}

#[test]
fn nesting_of_a_sequence_does_not_show() {
    let first = conditional(Boolean::True, Statement::Skip, Statement::Skip);
    let second = Statement::Assignment { ident: "x".to_string(), value: Arithmetic::Int(1) };
    let third = repeated(Boolean::False, Statement::Skip);
    let left = pair(pair(first.clone(), second.clone()), third.clone());
    let right = pair(first, pair(second, third));
    let mut left_generator = CodeGenerator::new();
    left_generator.code_gen(left);
    let mut right_generator = CodeGenerator::new();
    right_generator.code_gen(right);
    assert_eq!(left_generator.output_string, right_generator.output_string);
    assert_eq!(left_generator.label, 5);
    assert_eq!(right_generator.label, 5);
}

#[test]
fn conditional_is_lowered() {
    let mut generator = CodeGenerator::new();
    generator.code_gen(conditional(Boolean::True, Statement::Skip, Statement::Skip));
    assert_eq!(
        generator.output_string,
        "0:\ntrue\n    jeqz 1:\n    noop\n    jmp 2:\n1:\n    noop\n2:\n"
    );
    assert_eq!(generator.label, 3);
}

#[test]
fn conditional_parts_are_lowered() {
    let mut generator = fresh();
    generator.code_gen_if(
        Boolean::False,
        Statement::Assignment { ident: "a".to_string(), value: Arithmetic::Int(1) },
        Statement::Skip,
    );
    assert_eq!(
        generator.output_string,
        "false\n    jeqz 1:\n    push 1\n    store a\n    jmp 2:\n1:\n    noop\n2:\n"
    );
    assert_eq!(generator.label, 3);
}

#[test]
fn loop_is_lowered() {
    let mut generator = CodeGenerator::new();
    generator.code_gen(repeated(Boolean::False, Statement::Skip));
    assert_eq!(generator.output_string, "0:\n1:\nfalse\n    jeqz 2:\n    noop\n    jmp 1:\n2:\n");
    assert_eq!(generator.label, 3);
}

#[test]
fn loop_parts_are_lowered() {
    let mut generator = CodeGenerator { output_string: String::new(), label: 9 };
    generator.code_gen_while(Boolean::True, Statement::Skip);
    assert_eq!(generator.output_string, "9:\ntrue\n    jeqz 10:\n    noop\n    jmp 9:\n10:\n");
    assert_eq!(generator.label, 11);
}

#[test]
fn nested_constructs_take_later_labels() {
    let inner = conditional(Boolean::True, Statement::Skip, Statement::Skip);
    let mut generator = CodeGenerator::new();
    generator.code_gen(pair(repeated(Boolean::False, inner), Statement::Skip));
    assert_eq!(
        generator.output_string,
        "0:\n1:\nfalse\n    jeqz 2:\ntrue\n    jeqz 3:\n    noop\n    jmp 4:\n3:\n    noop\n4:\n    jmp 1:\n2:\n    noop\n"
    );
    assert_eq!(generator.label, 5);
}

#[test]
fn branches_take_labels_in_order() {
    let first = repeated(Boolean::True, Statement::Skip);
    let second = repeated(Boolean::False, Statement::Skip);
    let mut generator = CodeGenerator::new();
    generator.code_gen(conditional(Boolean::True, first, second));
    assert_eq!(
        generator.output_string,
        "0:\ntrue\n    jeqz 1:\n3:\ntrue\n    jeqz 4:\n    noop\n    jmp 3:\n4:\n    jmp 2:\n1:\n5:\nfalse\n    jeqz 6:\n    noop\n    jmp 5:\n6:\n2:\n"
    );
    assert_eq!(generator.label, 7);
}

#[test]
fn generation_is_repeatable() {
    let tree = pair(
        conditional(
            Boolean::True,
            repeated(Boolean::False, Statement::Skip),
            Statement::Assignment { ident: "x".to_string(), value: Arithmetic::Int(-3) },
        ),
        repeated(Boolean::True, Statement::Skip),
    );
    let mut first = CodeGenerator::new();
    first.code_gen(tree.clone());
    let mut second = CodeGenerator::new();
    second.code_gen(tree);
    assert_eq!(first.output_string, second.output_string);
    assert_eq!(first.label, second.label);
    assert_eq!(first.label, 7);
}

#[test]
fn room_for_labels_is_told() {
    let tree = conditional(Boolean::True, Statement::Skip, Statement::Skip);
    let generator = CodeGenerator { output_string: String::new(), label: usize::MAX - 1 };
    assert!(!generator.has_room_for(&tree));
    assert!(generator.has_room_for(&Statement::Skip));
    let generator = CodeGenerator { output_string: String::new(), label: usize::MAX - 2 };
    assert!(generator.has_room_for(&tree));
    assert!(!generator.has_room_for(&pair(tree.clone(), repeated(Boolean::True, Statement::Skip))));
    assert!(CodeGenerator::new().has_room_for(&Statement::Paren(Box::new(tree))));
}

#[test]
fn whole_program_starts_at_label_zero() {
    assert_eq!(generate(Statement::Skip), "0:\n    noop\n");
    assert_eq!(
        generate(repeated(Boolean::True, Statement::Skip)),
        "0:\n1:\ntrue\n    jeqz 2:\n    noop\n    jmp 1:\n2:\n"
    );
}

#[test]
fn tokens_are_compiled() {
    let tokens = vec![
        Token::Ident("n".to_string()),
        Token::Assign,
        Token::Int(3),
        Token::SemiColon,
        Token::While,
        Token::Ident("n".to_string()),
        Token::Gt,
        Token::Int(0),
        Token::Do,
        Token::Ident("n".to_string()),
        Token::Assign,
        Token::Ident("n".to_string()),
        Token::Sub,
        Token::Int(1),
    ];
    assert_eq!(
        compile(tokens),
        Ok("0:\n    push 3\n    store n\n1:\n    fetch n\n    push 0\n    gt\n    jeqz 2:\n    fetch n\n    push 1\n    sub\n    store n\n    jmp 1:\n2:\n"
            .to_string())
    );
}

#[test]
fn compiling_reports_the_parse_error() {
    assert_eq!(compile(vec![]), Err(ParseError::UnexpectedEnd));
    assert_eq!(compile(vec![Token::Assign]), Err(ParseError::UnexpectedToken(Token::Assign)));
    assert_eq!(
        compile(vec![Token::If, Token::True, Token::Do]),
        Err(ParseError::Mismatch { expected: Token::Then, actual: Token::Do })
    );
    assert_eq!(
        compile(vec![Token::Skip, Token::Then]),
        Err(ParseError::UnexpectedToken(Token::Then))
    );
}

#[test]
fn every_line_ends_and_none_is_empty() {
    let condition = Boolean::Binary {
        lhs: Box::new(Boolean::True),
        op: BooleanOp::And,
        rhs: Box::new(Boolean::Cmp {
            lhs: Box::new(binary(
                Arithmetic::Ident("x".to_string()),
                ArithmeticOp::Mul,
                Arithmetic::Int(2),
            )),
            op: BooleanOp::Lt,
            rhs: Box::new(Arithmetic::Int(9)),
        }),
    };
    let body = Statement::Assignment {
        ident: "x".to_string(),
        value: binary(Arithmetic::Ident("x".to_string()), ArithmeticOp::Add, Arithmetic::Int(1)),
    };
    let listing = generate(pair(
        repeated(condition, body),
        conditional(Boolean::False, Statement::Skip, Statement::Skip),
    ));
    assert!(listing.ends_with('\n'));
    let lines: Vec<&str> = listing.lines().collect();
    assert_eq!(
        lines,
        vec![
            "0:",
            "1:",
            "true",
            "    fetch x",
            "    push 2",
            "    mul",
            "    push 9",
            "    lt",
            "    land",
            "    jeqz 2:",
            "    fetch x",
            "    push 1",
            "    add",
            "    store x",
            "    jmp 1:",
            "2:",
            "false",
            "    jeqz 3:",
            "    noop",
            "    jmp 4:",
            "3:",
            "    noop",
            "4:",
        ]
    );
}
