//! Front end of the Erwin language: lexing, parsing, the type vocabulary, and
//! the checker's symbol tables with the resolution of names and expressions
//! against them.
pub mod ast;
pub mod checker;
pub mod error;
pub mod lexer;
pub mod parser;
pub mod resolver;
pub mod token;
pub mod scan;
pub mod symbols;
pub mod types;
pub mod text;
