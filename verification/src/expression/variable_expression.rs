//! The variable reference node.

use vstd::prelude::*;
use crate::expression::{ExprM, Expression};

verus! {

/// A reference to a variable by name.
#[derive(Debug, Clone, PartialEq)]
pub struct VariableExpression {
    pub name: String,
}

impl VariableExpression {
    pub fn new(name: String) -> (r: VariableExpression)
        ensures
            r.name == name,
    {
        VariableExpression { name }
    }

    /// Builds the variable reference as an expression.
    pub fn expression(name: String) -> (r: Expression)
        ensures
            r@ == ExprM::Var(name@),
    {
        Expression::VariableExpression(VariableExpression::new(name))
    }
}

} // verus!
