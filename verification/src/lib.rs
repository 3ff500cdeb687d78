//! Front end of the Carbide language: scanner, parser and diagnostics.

pub mod codes;
pub mod cursor;
pub mod error;
pub mod keywords;
pub mod lex_errors;
pub mod lex_laws;
pub mod lex_spec;
pub mod lexer;
pub mod nodes;
pub mod operators;
pub mod parse_errors;
pub mod parse_laws;
pub mod parse_shape;
pub mod parse_spec;
pub mod parser;
pub mod reporter;
pub mod text;
pub mod tokens;
