//! Front end of a small programming language: a tokenizer that turns source
//! text into a stream of position-tagged tokens, and a recursive-descent
//! parser that builds an abstract syntax tree of statements from that stream.
//!
//! Every operation is specified against a mathematical model: the tokenizer
//! against a spec-level scanner over the input's character sequence, the
//! parser against a spec-level grammar over tokenizer states.

pub mod ast;
pub mod decimal;
pub mod laws;
pub mod lex_spec;
pub mod lexer;
pub mod parse_spec;
pub mod parser;
mod strbuild;
pub mod token;
