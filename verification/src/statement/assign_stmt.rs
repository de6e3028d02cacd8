//! The assignment statement node.

use vstd::prelude::*;
use crate::expression::{ExprM, Expression};
use crate::statement::{Statement, StmtM};

verus! {

/// An assignment `var <ident> = <expr>`. The grammar has no syntax to make
/// a binding mutable, so `mutable` is always false for parsed statements;
/// the field is forward-looking.
#[derive(Debug, Clone, PartialEq)]
pub struct AssignStmt {
    pub variable: Expression,
    pub value: Expression,
    pub mutable: bool,
}

impl AssignStmt {
    pub fn new(variable: Expression, value: Expression, mutable: bool) -> (r: AssignStmt)
        ensures
            r.variable == variable,
            r.value == value,
            r.mutable == mutable,
    {
        AssignStmt { variable, value, mutable }
    }

    /// Builds the assignment as a statement.
    pub fn statement(variable: Expression, value: Expression, mutable: bool) -> (r: Statement)
        ensures
            r@ == (StmtM::Assign { variable: variable@, value: value@, mutable }),
    {
        Statement::Assign(AssignStmt::new(variable, value, mutable))
    }
}

} // verus!
