//! The addition node.

use vstd::prelude::*;
use crate::expression::binary_expression::BinaryExpr;
use crate::expression::{expr_m, ExprM, Expression};

verus! {

/// A addition node owning its two operands.
#[derive(Debug)]
pub struct AddOpr {
    pub lhs: Box<Expression>,
    pub rhs: Box<Expression>,
}

impl AddOpr {
    pub fn new(lhs: Expression, rhs: Expression) -> (r: AddOpr)
        ensures
            *r.lhs == lhs,
            *r.rhs == rhs,
    {
        AddOpr { lhs: Box::new(lhs), rhs: Box::new(rhs) }
    }

    /// Builds the addition of the two operands as an expression.
    pub fn expression(lhs: Expression, rhs: Expression) -> (r: Expression)
        ensures
            r@ == ExprM::Add(Box::new(lhs@), Box::new(rhs@)),
    {
        Expression::BinaryExpression(BinaryExpr::AddOpr(AddOpr::new(lhs, rhs)))
    }

    pub fn lhs(&self) -> (r: &Expression)
        ensures
            *r == *self.lhs,
    {
        &self.lhs
    }

    pub fn rhs(&self) -> (r: &Expression)
        ensures
            *r == *self.rhs,
    {
        &self.rhs
    }
}

} // verus!
