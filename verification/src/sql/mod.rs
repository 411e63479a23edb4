//! The SQL dialect: lexer, grammar and parser.
pub mod lexer;
pub mod grammar;
pub mod tokens;
pub mod parser;
pub mod statements;
