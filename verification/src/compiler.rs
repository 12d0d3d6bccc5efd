//! The whole way from tokens to the listing.

use vstd::prelude::*;
use crate::ast::{Statement, StatementView};
use crate::code_gen::CodeGenerator;
use crate::grammar::program_of;
use crate::lexer::{token_views, Token};
use crate::listing::{label_line, labels_used, statement_code};
use crate::parser::{parse, ParseError, ParseErrorView};
use crate::roundtrip::law_program_is_whole_input;
use crate::surface::spells_program;

verus! {

/// The listing of a whole program: the line of label 0, which marks the
/// entry, and then the program's code with labels from 1 on.
pub open spec fn program_listing(program: StatementView) -> Seq<char> {
    label_line(0) + statement_code(program, 1)
}

/// Generates the listing of a whole program.
pub fn generate(program: Statement) -> (listing: String)
    requires
        1 + labels_used(program@) <= usize::MAX,
    ensures
        listing@ == program_listing(program@),
{
    let mut generator = CodeGenerator::new();
    generator.code_gen(program);
    generator.output_string
}

/// Parses `tokens` as one program and generates its listing.
///
/// This succeeds exactly when the tokens spell a program, and labels
/// never run out: a program needs fewer labels than it has tokens.
pub fn compile(tokens: Vec<Token>) -> (result: Result<String, ParseError>)
    ensures
        match result {
            Ok(listing) => {
                &&& program_of(token_views(tokens@)) matches Ok(program)
                &&& spells_program(token_views(tokens@), program)
                &&& listing@ == program_listing(program)
            },
            Err(error) => {
                &&& program_of(token_views(tokens@)) == Err::<StatementView, ParseErrorView>(
                    error@,
                )
                &&& forall|tree: StatementView| !spells_program(token_views(tokens@), tree)
            },
        },
{
    let ghost input = token_views(tokens@);
    let count = tokens.len();
    match parse(tokens) {
        Err(error) => Err(error),
        Ok(program) => {
            proof {
                law_program_is_whole_input(input);
                assert(input.len() == count);
            }
            Ok(generate(program))
        },
    }
}

} // verus!
