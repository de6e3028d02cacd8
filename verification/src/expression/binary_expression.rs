//! Binary operator nodes: addition, subtraction, multiplication, division.

use vstd::prelude::*;

pub mod add_opr;
pub mod div_opr;
pub mod mul_opr;
pub mod sub_opr;

verus! {

/// A binary operator application, one variant per operator.
#[derive(Debug)]
pub enum BinaryExpr {
    AddOpr(add_opr::AddOpr),
    SubOpr(sub_opr::SubOpr),
    MulOpr(mul_opr::MulOpr),
    DivOpr(div_opr::DivOpr),
}

} // verus!
