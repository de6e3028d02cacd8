//! Expressions: an owned recursive tree of value, variable and
//! binary-operator nodes, together with its mathematical model.

use vstd::prelude::*;

pub mod binary_expression;
pub mod value_expression;
pub mod variable_expression;

use binary_expression::BinaryExpr;
use value_expression::ValueExpression;

verus! {

/// The mathematical model of an expression tree. Integer literals are
/// modelled by their value, float literals by their canonical text, and
/// variables by their name.
pub enum ExprM {
    Int(int),
    Float(Seq<char>),
    Var(Seq<char>),
    Add(Box<ExprM>, Box<ExprM>),
    Sub(Box<ExprM>, Box<ExprM>),
    Mul(Box<ExprM>, Box<ExprM>),
    Div(Box<ExprM>, Box<ExprM>),
}

/// An expression node. Every `BinaryExpression` owns exactly two fully
/// formed children; the tree has no sharing and no cycles.
#[derive(Debug)]
pub enum Expression {
    ValueExpression(ValueExpression),
    BinaryExpression(BinaryExpr),
    VariableExpression(variable_expression::VariableExpression),
}

/// The model of an expression tree.
pub open spec fn expr_m(e: Expression) -> ExprM
    decreases e,
{
    match e {
        Expression::ValueExpression(v) => match v {
            ValueExpression::IntValue(iv) => ExprM::Int(iv.value as int),
            ValueExpression::FloatValue(fv) => ExprM::Float(fv.value@),
        },
        Expression::VariableExpression(v) => ExprM::Var(v.name@),
        Expression::BinaryExpression(b) => match b {
            BinaryExpr::AddOpr(o) => ExprM::Add(
                Box::new(expr_m(*o.lhs)),
                Box::new(expr_m(*o.rhs)),
            ),
            BinaryExpr::SubOpr(o) => ExprM::Sub(
                Box::new(expr_m(*o.lhs)),
                Box::new(expr_m(*o.rhs)),
            ),
            BinaryExpr::MulOpr(o) => ExprM::Mul(
                Box::new(expr_m(*o.lhs)),
                Box::new(expr_m(*o.rhs)),
            ),
            BinaryExpr::DivOpr(o) => ExprM::Div(
                Box::new(expr_m(*o.lhs)),
                Box::new(expr_m(*o.rhs)),
            ),
        },
    }
}

impl View for Expression {
    type V = ExprM;

    open spec fn view(&self) -> ExprM {
        expr_m(*self)
    }
}

/// Structural (deep) equality of two expression trees: true exactly when
/// their models coincide.
pub fn expr_eq(a: &Expression, b: &Expression) -> (r: bool)
    ensures
        r == (a@ == b@),
    decreases a,
{
    match (a, b) {
        (
            Expression::ValueExpression(ValueExpression::IntValue(x)),
            Expression::ValueExpression(ValueExpression::IntValue(y)),
        ) => x.value == y.value,
        (
            Expression::ValueExpression(ValueExpression::FloatValue(x)),
            Expression::ValueExpression(ValueExpression::FloatValue(y)),
        ) => x.value == y.value,
        (Expression::VariableExpression(x), Expression::VariableExpression(y)) => x.name == y.name,
        (
            Expression::BinaryExpression(BinaryExpr::AddOpr(x)),
            Expression::BinaryExpression(BinaryExpr::AddOpr(y)),
        ) => expr_eq(&x.lhs, &y.lhs) && expr_eq(&x.rhs, &y.rhs),
        (
            Expression::BinaryExpression(BinaryExpr::SubOpr(x)),
            Expression::BinaryExpression(BinaryExpr::SubOpr(y)),
        ) => expr_eq(&x.lhs, &y.lhs) && expr_eq(&x.rhs, &y.rhs),
        (
            Expression::BinaryExpression(BinaryExpr::MulOpr(x)),
            Expression::BinaryExpression(BinaryExpr::MulOpr(y)),
        ) => expr_eq(&x.lhs, &y.lhs) && expr_eq(&x.rhs, &y.rhs),
        (
            Expression::BinaryExpression(BinaryExpr::DivOpr(x)),
            Expression::BinaryExpression(BinaryExpr::DivOpr(y)),
        ) => expr_eq(&x.lhs, &y.lhs) && expr_eq(&x.rhs, &y.rhs),
        _ => false,
    }
}

impl Clone for Expression {
    /// Clones the whole tree; the copy equals the original.
    fn clone(&self) -> (r: Expression)
        ensures
            r == *self,
    {
        self.duplicate()
    }
}

impl PartialEq for Expression {
    fn eq(&self, other: &Expression) -> (r: bool) {
        expr_eq(self, other)
    }
}

impl vstd::std_specs::cmp::PartialEqSpecImpl for Expression {
    open spec fn obeys_eq_spec() -> bool {
        true
    }

    open spec fn eq_spec(&self, other: &Expression) -> bool {
        self@ == other@
    }
}

impl Expression {
    /// A structural deep copy.
    pub fn duplicate(&self) -> (r: Expression)
        ensures
            r == *self,
        decreases self,
    {
        match self {
            Expression::ValueExpression(v) => Expression::ValueExpression(
                match v {
                    ValueExpression::IntValue(iv) => ValueExpression::IntValue(
                        value_expression::int_value::IntValue { value: iv.value },
                    ),
                    ValueExpression::FloatValue(fv) => ValueExpression::FloatValue(
                        value_expression::float_value::FloatValue { value: fv.value.clone() },
                    ),
                },
            ),
            Expression::VariableExpression(v) => Expression::VariableExpression(
                variable_expression::VariableExpression { name: v.name.clone() },
            ),
            Expression::BinaryExpression(b) => Expression::BinaryExpression(
                match b {
                    BinaryExpr::AddOpr(o) => BinaryExpr::AddOpr(
                        binary_expression::add_opr::AddOpr {
                            lhs: Box::new(o.lhs.duplicate()),
                            rhs: Box::new(o.rhs.duplicate()),
                        },
                    ),
                    BinaryExpr::SubOpr(o) => BinaryExpr::SubOpr(
                        binary_expression::sub_opr::SubOpr {
                            lhs: Box::new(o.lhs.duplicate()),
                            rhs: Box::new(o.rhs.duplicate()),
                        },
                    ),
                    BinaryExpr::MulOpr(o) => BinaryExpr::MulOpr(
                        binary_expression::mul_opr::MulOpr {
                            lhs: Box::new(o.lhs.duplicate()),
                            rhs: Box::new(o.rhs.duplicate()),
                        },
                    ),
                    BinaryExpr::DivOpr(o) => BinaryExpr::DivOpr(
                        binary_expression::div_opr::DivOpr {
                            lhs: Box::new(o.lhs.duplicate()),
                            rhs: Box::new(o.rhs.duplicate()),
                        },
                    ),
                },
            ),
        }
    }
}

} // verus!
