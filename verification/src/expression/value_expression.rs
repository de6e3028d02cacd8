//! Literal value nodes: integers and canonicalized floats.

use vstd::prelude::*;

pub mod float_value;
pub mod int_value;

use crate::expression::{ExprM, Expression};
use float_value::FloatValue;
use int_value::IntValue;

verus! {

/// A literal value, either an integer or a float.
#[derive(Debug, Clone, PartialEq)]
pub enum ValueExpression {
    IntValue(IntValue),
    FloatValue(FloatValue),
}

impl ValueExpression {
    /// Builds an integer literal expression.
    pub fn int_value(val: i32) -> (r: Expression)
        ensures
            r@ == ExprM::Int(val as int),
    {
        IntValue::expression(val)
    }

    /// Builds a float literal expression from its canonical decimal text.
    pub fn float_value(val: String) -> (r: Expression)
        ensures
            r@ == ExprM::Float(val@),
    {
        FloatValue::expression(val)
    }
}

} // verus!
