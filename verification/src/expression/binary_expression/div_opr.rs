//! The division node.

use vstd::prelude::*;
use crate::expression::binary_expression::BinaryExpr;
use crate::expression::{expr_m, ExprM, Expression};

verus! {

/// A division node owning its two operands.
#[derive(Debug)]
pub struct DivOpr {
    pub lhs: Box<Expression>,
    pub rhs: Box<Expression>,
}

impl DivOpr {
    pub fn new(lhs: Expression, rhs: Expression) -> (r: DivOpr)
        ensures
            *r.lhs == lhs,
            *r.rhs == rhs,
    {
        DivOpr { lhs: Box::new(lhs), rhs: Box::new(rhs) }
    }

    /// Builds the division of the two operands as an expression.
    pub fn expression(lhs: Expression, rhs: Expression) -> (r: Expression)
        ensures
            r@ == ExprM::Div(Box::new(lhs@), Box::new(rhs@)),
    {
        Expression::BinaryExpression(BinaryExpr::DivOpr(DivOpr::new(lhs, rhs)))
    }

    pub fn lhs(&self) -> (r: &Expression)
        ensures
            *r == *self.lhs,
    {
        &self.lhs
    }

    pub fn rhs(&self) -> (r: &Expression)
        ensures
            *r == *self.rhs,
    {
        &self.rhs
    }
}

} // verus!
