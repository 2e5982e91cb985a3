//! Tokenizer, recursive-descent parser and canonical serializer for a small
//! imperative toy language (variable declarations, if/else, while loops,
//! assignments, single-level arithmetic and comparison expressions), together
//! with the sorting routines exercised by the surrounding benchmark driver.
//!
//! The language pipeline is: source text -> [`lexer::tokenize`] -> token
//! sequence -> [`parser::Parser::parse_program`] -> abstract syntax tree ->
//! [`serialize::serialize`] -> canonical JSON text. Every stage is specified
//! against a mathematical model of the same computation, so that independent
//! implementations can be compared against a single, precise reference.

pub mod ast;
pub mod lexer;
pub mod parser;
pub mod pipeline;
pub mod serialize;
pub mod sorting;
pub mod token;

pub use token::Token;
pub use token::TokenKind;
