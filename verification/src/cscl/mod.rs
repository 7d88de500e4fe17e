//! The cooperative smart-contract language: lexer, parser and compiler.
pub mod lexer;
pub mod parser;
pub mod token;
