//! The multiplication node.

use vstd::prelude::*;
use crate::expression::binary_expression::BinaryExpr;
use crate::expression::{expr_m, ExprM, Expression};

verus! {

/// A multiplication node owning its two operands.
#[derive(Debug)]
pub struct MulOpr {
    pub lhs: Box<Expression>,
    pub rhs: Box<Expression>,
}

impl MulOpr {
    pub fn new(lhs: Expression, rhs: Expression) -> (r: MulOpr)
        ensures
            *r.lhs == lhs,
            *r.rhs == rhs,
    {
        MulOpr { lhs: Box::new(lhs), rhs: Box::new(rhs) }
    }

    /// Builds the multiplication of the two operands as an expression.
    pub fn expression(lhs: Expression, rhs: Expression) -> (r: Expression)
        ensures
            r@ == ExprM::Mul(Box::new(lhs@), Box::new(rhs@)),
    {
        Expression::BinaryExpression(BinaryExpr::MulOpr(MulOpr::new(lhs, rhs)))
    }

    pub fn lhs(&self) -> (r: &Expression)
        ensures
            *r == *self.lhs,
    {
        &self.lhs
    }

    pub fn rhs(&self) -> (r: &Expression)
        ensures
            *r == *self.rhs,
    {
        &self.rhs
    }
}

} // verus!
