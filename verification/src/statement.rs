//! Statements: a bare expression, or a `var` assignment.

use vstd::prelude::*;

pub mod assign_stmt;

use crate::expression::{ExprM, Expression};
use assign_stmt::AssignStmt;

verus! {

/// The mathematical model of a statement.
pub enum StmtM {
    Expr(ExprM),
    Assign { variable: ExprM, value: ExprM, mutable: bool },
}

/// A statement: a bare expression, or an assignment.
#[derive(Debug, Clone, PartialEq)]
pub enum Statement {
    Expression(Expression),
    Assign(AssignStmt),
}

/// The model of a statement.
pub open spec fn stmt_m(s: Statement) -> StmtM {
    match s {
        Statement::Expression(e) => StmtM::Expr(e@),
        Statement::Assign(a) => StmtM::Assign {
            variable: a.variable@,
            value: a.value@,
            mutable: a.mutable,
        },
    }
}

impl View for Statement {
    type V = StmtM;

    open spec fn view(&self) -> StmtM {
        stmt_m(*self)
    }
}

/// The models of a sequence of statements.
pub open spec fn stmts_m(ss: Seq<Statement>) -> Seq<StmtM> {
    ss.map_values(|s: Statement| s@)
}

impl Statement {
    /// A structural deep copy.
    pub fn duplicate(&self) -> (r: Statement)
        ensures
            r == *self,
    {
        match self {
            Statement::Expression(e) => Statement::Expression(e.duplicate()),
            Statement::Assign(a) => Statement::Assign(
                AssignStmt {
                    variable: a.variable.duplicate(),
                    value: a.value.duplicate(),
                    mutable: a.mutable,
                },
            ),
        }
    }
}

} // verus!
