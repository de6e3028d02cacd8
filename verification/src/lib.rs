//! Front end for a small arithmetic/assignment language: a tokenizer that
//! turns source text into positioned tokens, and a recursive-descent parser
//! that builds an abstract syntax tree of expressions and statements.

pub mod codepos;
pub mod token_t;
pub mod token;
pub mod text;
pub mod numeral;
pub mod lex_model;
pub mod lex_props;
pub mod lexer;
pub mod expression;
pub mod statement;
pub mod grammar;
pub mod parser;
pub mod serialize;
