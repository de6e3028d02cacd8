//! The subtraction node.

use vstd::prelude::*;
use crate::expression::binary_expression::BinaryExpr;
use crate::expression::{expr_m, ExprM, Expression};

verus! {

/// A subtraction node owning its two operands.
#[derive(Debug)]
pub struct SubOpr {
    pub lhs: Box<Expression>,
    pub rhs: Box<Expression>,
}

impl SubOpr {
    pub fn new(lhs: Expression, rhs: Expression) -> (r: SubOpr)
        ensures
            *r.lhs == lhs,
            *r.rhs == rhs,
    {
        SubOpr { lhs: Box::new(lhs), rhs: Box::new(rhs) }
    }

    /// Builds the subtraction of the two operands as an expression.
    pub fn expression(lhs: Expression, rhs: Expression) -> (r: Expression)
        ensures
            r@ == ExprM::Sub(Box::new(lhs@), Box::new(rhs@)),
    {
        Expression::BinaryExpression(BinaryExpr::SubOpr(SubOpr::new(lhs, rhs)))
    }

    pub fn lhs(&self) -> (r: &Expression)
        ensures
            *r == *self.lhs,
    {
        &self.lhs
    }

    pub fn rhs(&self) -> (r: &Expression)
        ensures
            *r == *self.rhs,
    {
        &self.rhs
    }
}

} // verus!
