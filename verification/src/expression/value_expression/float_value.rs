//! The float literal node. The tokenizer canonicalizes every float literal
//! to its canonical decimal text, and that text is what the node stores:
//! the numeric value is `value` read as a decimal fraction.

use vstd::prelude::*;
use crate::expression::value_expression::ValueExpression;
use crate::expression::{ExprM, Expression};

verus! {

/// A float literal, held as its canonical decimal text.
#[derive(Debug, Clone, PartialEq)]
pub struct FloatValue {
    pub value: String,
}

impl FloatValue {
    pub fn new(val: String) -> (r: FloatValue)
        ensures
            r.value == val,
    {
        FloatValue { value: val }
    }

    /// Builds the literal as an expression.
    pub fn expression(val: String) -> (r: Expression)
        ensures
            r@ == ExprM::Float(val@),
    {
        Expression::ValueExpression(ValueExpression::FloatValue(FloatValue::new(val)))
    }

    /// The canonical decimal text of the literal.
    pub fn value(&self) -> (r: String)
        ensures
            r == self.value,
    {
        self.value.clone()
    }
}

} // verus!
