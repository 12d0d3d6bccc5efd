//! A compiler from the While language to a stack-machine listing.
//!
//! Tokens are parsed into a syntax tree by a recursive-descent parser,
//! and the tree is lowered to a flat listing of instructions and
//! numbered jump labels.

pub mod ast;
pub mod code_gen;
pub mod compiler;
pub mod grammar;
pub mod lexer;
pub mod listing;
pub mod lowering;
pub mod parser;
pub mod readback;
pub mod roundtrip;
pub mod surface;
