//! The code generator: from a syntax tree to the listing.

use vstd::prelude::*;
use vstd::string::*;
use crate::ast::{Arithmetic, Boolean, Statement, StatementView};
use crate::listing::{
    arithmetic_code, boolean_code, decimal, digit, integer_text, label_line, label_text,
    labels_used, statement_code, statement_nodes,
};

verus! {

/// The listing written so far and the first label that is still free.
pub struct CodeGenerator {
    pub output_string: String,
    pub label: usize,
}

/// One decimal digit as text.
fn digit_text(value: u64) -> (text: &'static str)
    requires
        value < 10,
    ensures
        text@ == seq![digit(value as nat)],
{
    proof {
        reveal_strlit("0");
        reveal_strlit("1");
        reveal_strlit("2");
        reveal_strlit("3");
        reveal_strlit("4");
        reveal_strlit("5");
        reveal_strlit("6");
        reveal_strlit("7");
        reveal_strlit("8");
        reveal_strlit("9");
    }
    let text = if value == 0 {
        "0"
    } else if value == 1 {
        "1"
    } else if value == 2 {
        "2"
    } else if value == 3 {
        "3"
    } else if value == 4 {
        "4"
    } else if value == 5 {
        "5"
    } else if value == 6 {
        "6"
    } else if value == 7 {
        "7"
    } else if value == 8 {
        "8"
    } else {
        "9"
    };
    assert(text@ =~= seq![digit(value as nat)]);
    text
}

/// Appends `value` in decimal to `out`.
fn append_decimal(out: &mut String, value: u64)
    ensures
        final(out)@ == old(out)@ + decimal(value as nat),
    decreases value,
{
    if value >= 10 {
        append_decimal(out, value / 10);
    }
    out.append(digit_text(value % 10));
    assert(out@ =~= old(out)@ + decimal(value as nat));
}

/// Appends `value` in decimal to `out`, with its sign if it is negative.
fn append_integer(out: &mut String, value: i32)
    ensures
        final(out)@ == old(out)@ + integer_text(value as int),
{
    if value < 0 {
        proof {
            reveal_strlit("-");
        }
        out.append("-");
        let magnitude: u64 = (-(value as i64)) as u64;
        append_decimal(out, magnitude);
        assert(out@ =~= old(out)@ + integer_text(value as int));
    } else {
        append_decimal(out, value as u64);
    }
}

/// Counts the labels that the listing of `ast` defines, as long as they
/// are no more than `limit`.
fn labels_within(ast: &Statement, limit: usize) -> (count: Option<usize>)
    ensures
        match count {
            Some(used) => used == labels_used(ast@) && used <= limit,
            None => labels_used(ast@) > limit,
        },
    decreases ast,
{
    match ast {
        Statement::Assignment { .. } => Some(0),
        Statement::Skip => Some(0),
        Statement::Composision(first, second) => {
            match labels_within(&**first, limit) {
                None => None,
                Some(before) => match labels_within(&**second, limit - before) {
                    None => None,
                    Some(after) => Some(before + after),
                },
            }
        },
        Statement::If { if_branch, else_branch, .. } => {
            if limit < 2 {
                None
            } else {
                match labels_within(&**if_branch, limit - 2) {
                    None => None,
                    Some(before) => match labels_within(&**else_branch, limit - 2 - before) {
                        None => None,
                        Some(after) => Some(2 + before + after),
                    },
                }
            }
        },
        Statement::While { body, .. } => {
            if limit < 2 {
                None
            } else {
                match labels_within(&**body, limit - 2) {
                    None => None,
                    Some(inside) => Some(2 + inside),
                }
            }
        },
        Statement::Paren(inner) => labels_within(&**inner, limit),
    }
}

/// Whether generating `tree` takes the generator from `before` to
/// `after`: the listing of `tree` is appended, with labels from the first
/// free one on, and the labels it defines are taken.
pub open spec fn generated(before: CodeGenerator, tree: StatementView, after: CodeGenerator)
    -> bool {
    &&& after.output_string@ == before.output_string@ + statement_code(tree, before.label as nat)
    &&& after.label == before.label + labels_used(tree)
}

impl CodeGenerator {
    /// A generator at the start of a program: the listing holds the line
    /// of label 0, which marks the program's entry, and the first free
    /// label is 1.
    pub fn new() -> (generator: CodeGenerator)
        ensures
            generator.output_string@ == label_line(0),
            generator.label == 1,
    {
        proof {
            reveal_strlit("0:\n");
            reveal_strlit("\n");
            assert(decimal(0) =~= seq!['0']);
            assert("0:\n"@ =~= label_line(0));
        }
        CodeGenerator { output_string: String::from_str("0:\n"), label: 1 }
    }

    /// Whether the labels that `ast` needs are still to be had.
    pub fn has_room_for(&self, ast: &Statement) -> (room: bool)
        ensures
            room == (self.label + labels_used(ast@) <= usize::MAX),
    {
        labels_within(ast, usize::MAX - self.label).is_some()
    }

    /// Takes the first free label and returns it as it is written.
    pub fn next_label(&mut self) -> (text: String)
        requires
            old(self).label < usize::MAX,
        ensures
            text@ == label_text(old(self).label as nat),
            final(self).label == old(self).label + 1,
            final(self).output_string@ == old(self).output_string@,
    {
        let mut text = String::new();
        append_decimal(&mut text, self.label as u64);
        proof {
            reveal_strlit(":");
        }
        text.append(":");
        assert(text@ =~= label_text(self.label as nat));
        self.label += 1;
        text
    }

    /// Appends the listing of an arithmetic expression.
    pub fn code_gen_arithmetic(&mut self, ast: Arithmetic)
        ensures
            final(self).output_string@ == old(self).output_string@ + arithmetic_code(ast@),
            final(self).label == old(self).label,
        decreases ast,
    {
        match ast {
            Arithmetic::Int(value) => {
                self.output_string.append("    push ");
                append_integer(&mut self.output_string, value);
                self.output_string.append("\n");
                assert(self.output_string@ =~= old(self).output_string@ + arithmetic_code(ast@));
            },
            Arithmetic::Ident(name) => {
                self.output_string.append("    fetch ");
                self.output_string.append(name.as_str());
                self.output_string.append("\n");
                assert(self.output_string@ =~= old(self).output_string@ + arithmetic_code(ast@));
            },
            Arithmetic::Binary { lhs, op, rhs } => {
                self.code_gen_arithmetic(*lhs);
                self.code_gen_arithmetic(*rhs);
                self.output_string.append("    ");
                self.output_string.append(op.mnemonic());
                self.output_string.append("\n");
                assert(self.output_string@ =~= old(self).output_string@ + arithmetic_code(ast@));
            },
            Arithmetic::Paren(inner) => {
                self.code_gen_arithmetic(*inner);
            },
        }
    }

    /// Appends the listing of a boolean expression.
    pub fn code_gen_boolean(&mut self, ast: Boolean)
        ensures
            final(self).output_string@ == old(self).output_string@ + boolean_code(ast@),
            final(self).label == old(self).label,
        decreases ast,
    {
        match ast {
            Boolean::False => {
                self.output_string.append("false\n");
            },
            Boolean::True => {
                self.output_string.append("true\n");
            },
            Boolean::Cmp { lhs, op, rhs } => {
                self.code_gen_arithmetic(*lhs);
                self.code_gen_arithmetic(*rhs);
                self.output_string.append("    ");
                self.output_string.append(op.mnemonic());
                self.output_string.append("\n");
                assert(self.output_string@ =~= old(self).output_string@ + boolean_code(ast@));
            },
            Boolean::Binary { lhs, op, rhs } => {
                self.code_gen_boolean(*lhs);
                self.code_gen_boolean(*rhs);
                self.output_string.append("    ");
                self.output_string.append(op.mnemonic());
                self.output_string.append("\n");
                assert(self.output_string@ =~= old(self).output_string@ + boolean_code(ast@));
            },
            Boolean::Paren(inner) => {
                self.code_gen_boolean(*inner);
            },
        }
    }

    /// Appends a jump instruction to the label written as `label`.
    fn emit_jump(&mut self, instruction: &str, label: &String)
        ensures
            final(self).output_string@ == old(self).output_string@ + ("    "@ + instruction@ + " "@
                + label@ + "\n"@),
            final(self).label == old(self).label,
    {
        self.output_string.append("    ");
        self.output_string.append(instruction);
        self.output_string.append(" ");
        self.output_string.append(label.as_str());
        self.output_string.append("\n");
        assert(self.output_string@ =~= old(self).output_string@ + ("    "@ + instruction@ + " "@
            + label@ + "\n"@));
    }

    /// Appends the line that defines the label written as `label`.
    fn emit_label(&mut self, label: &String)
        ensures
            final(self).output_string@ == old(self).output_string@ + (label@ + "\n"@),
            final(self).label == old(self).label,
    {
        self.output_string.append(label.as_str());
        self.output_string.append("\n");
        assert(self.output_string@ =~= old(self).output_string@ + (label@ + "\n"@));
    }

    /// Appends the listing of a conditional: the condition, a jump to the
    /// else label if it is false, the first branch, a jump to the end
    /// label, the else label, the second branch, the end label.
    pub fn code_gen_if(&mut self, condition: Boolean, if_branch: Statement, else_branch: Statement)
        requires
            old(self).label + 2 + labels_used(if_branch@) + labels_used(else_branch@)
                <= usize::MAX,
        ensures
            final(self).output_string@ == old(self).output_string@ + statement_code(
                StatementView::If {
                    condition: condition@,
                    if_branch: Box::new(if_branch@),
                    else_branch: Box::new(else_branch@),
                },
                old(self).label as nat,
            ),
            final(self).label == old(self).label + 2 + labels_used(if_branch@) + labels_used(
                else_branch@,
            ),
        decreases 1 + statement_nodes(if_branch@) + statement_nodes(else_branch@), 0nat,
    {
        let else_label = self.next_label();
        let end_label = self.next_label();
        self.code_gen_boolean(condition);
        self.emit_jump("jeqz", &else_label);
        self.code_gen(if_branch);
        self.emit_jump("jmp", &end_label);
        self.emit_label(&else_label);
        self.code_gen(else_branch);
        self.emit_label(&end_label);
        assert(self.output_string@ =~= old(self).output_string@ + statement_code(
            StatementView::If {
                condition: condition@,
                if_branch: Box::new(if_branch@),
                else_branch: Box::new(else_branch@),
            },
            old(self).label as nat,
        ));
    }

    /// Appends the listing of a loop: the condition label, the condition,
    /// a jump to the end label if it is false, the body, a jump back to
    /// the condition label, the end label.
    pub fn code_gen_while(&mut self, condition: Boolean, body: Statement)
        requires
            old(self).label + 2 + labels_used(body@) <= usize::MAX,
        ensures
            final(self).output_string@ == old(self).output_string@ + statement_code(
                StatementView::While { condition: condition@, body: Box::new(body@) },
                old(self).label as nat,
            ),
            final(self).label == old(self).label + 2 + labels_used(body@),
        decreases 1 + statement_nodes(body@), 0nat,
    {
        let condition_label = self.next_label();
        let end_label = self.next_label();
        self.emit_label(&condition_label);
        self.code_gen_boolean(condition);
        self.emit_jump("jeqz", &end_label);
        self.code_gen(body);
        self.emit_jump("jmp", &condition_label);
        self.emit_label(&end_label);
        assert(self.output_string@ =~= old(self).output_string@ + statement_code(
            StatementView::While { condition: condition@, body: Box::new(body@) },
            old(self).label as nat,
        ));
    }

    /// Appends the listing of a statement, and takes the labels it needs
    /// from the first free one on.
    pub fn code_gen(&mut self, ast: Statement)
        requires
            old(self).label + labels_used(ast@) <= usize::MAX,
        ensures
            generated(*old(self), ast@, *final(self)),
        decreases statement_nodes(ast@), 1nat,
    {
        match ast {
            Statement::Assignment { ident, value } => {
                self.code_gen_arithmetic(value);
                self.output_string.append("    store ");
                self.output_string.append(ident.as_str());
                self.output_string.append("\n");
                assert(self.output_string@ =~= old(self).output_string@ + statement_code(
                    ast@,
                    old(self).label as nat,
                ));
            },
            Statement::Skip => {
                self.output_string.append("    noop\n");
            },
            Statement::Composision(first, second) => {
                self.code_gen(*first);
                self.code_gen(*second);
                assert(self.output_string@ =~= old(self).output_string@ + statement_code(
                    ast@,
                    old(self).label as nat,
                ));
            },
            Statement::If { condition, if_branch, else_branch } => {
                self.code_gen_if(condition, *if_branch, *else_branch);
            },
            Statement::While { condition, body } => {
                self.code_gen_while(condition, *body);
            },
            Statement::Paren(inner) => {
                self.code_gen(*inner);
            },
        }
    }
}

} // verus!
