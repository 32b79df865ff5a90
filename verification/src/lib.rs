//! A verified core of Rust expression syntax: a token model, the syntax tree
//! of expressions, patterns and statements, a parser from tokens to trees and
//! a printer from trees back to tokens.

pub mod token;
pub mod ast;
pub mod print;
pub mod attrs;
pub mod parse_util;
pub mod parse_expr;
pub mod parse_pat;
pub mod parse_stmt;
pub mod to_tokens;
pub mod laws;
