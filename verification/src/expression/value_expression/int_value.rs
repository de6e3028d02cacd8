//! The integer literal node.

use vstd::prelude::*;
use crate::expression::value_expression::ValueExpression;
use crate::expression::{ExprM, Expression};

verus! {

/// An integer literal.
#[derive(Debug, Clone, PartialEq)]
pub struct IntValue {
    pub value: i32,
}

impl IntValue {
    pub fn new(val: i32) -> (r: IntValue)
        ensures
            r.value == val,
    {
        IntValue { value: val }
    }

    /// Builds the literal as an expression.
    pub fn expression(val: i32) -> (r: Expression)
        ensures
            r@ == ExprM::Int(val as int),
    {
        Expression::ValueExpression(ValueExpression::IntValue(IntValue::new(val)))
    }

    pub fn value(&self) -> (r: i32)
        ensures
            r == self.value,
    {
        self.value
    }
}

} // verus!
