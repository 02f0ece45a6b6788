use vstd::prelude::*;
use crate::sundials_types::sunindextype;

verus! {

/// The state of a dense direct linear solver: the system order, the pivot
/// rows of the last factorization, and the last return flag.
pub struct SUNLinearSolverContent_Dense_ {
    pub N: sunindextype,
    pub pivots: Vec<sunindextype>,
    pub last_flag: sunindextype,
}

pub type SUNLinearSolverContent_Dense = SUNLinearSolverContent_Dense_;

} // verus!
