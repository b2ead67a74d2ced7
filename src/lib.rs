//! Tokenizer and finite-state validator for arithmetic expressions.

pub mod analyzer;
pub mod parser;
pub mod token;
