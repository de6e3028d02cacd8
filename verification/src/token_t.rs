//! The token taxonomy produced by the tokenizer.

use vstd::prelude::*;

verus! {

/// The kind of a lexical unit.
#[derive(Debug, Clone, Copy, PartialEq, Eq, Structural)]
pub enum TokenT {
    /// A run of whitespace; stripped before parsing.
    WHITESPACE,
    /// A run of decimal digits.
    INTEGER,
    /// A decimal literal with a fractional part, canonicalized.
    FLOAT,
    /// A word that is not a reserved keyword.
    IDENTIFIER,
    /// One of `+ - * / % =`.
    OPERATOR,
    /// One of `( ) [ ] { }`.
    BRACKET,
    /// The keyword `var`, used for variable declaration.
    VAR,
}

} // verus!
