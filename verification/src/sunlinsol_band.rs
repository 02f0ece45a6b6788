use vstd::prelude::*;
use crate::sundials_types::sunindextype;

verus! {

/// The state of a banded direct linear solver: the system order, the
/// pivot rows of the last factorization, and the last return flag.
pub struct SUNLinearSolverContent_Band_ {
    pub N: sunindextype,
    pub pivots: Vec<sunindextype>,
    pub last_flag: sunindextype,
}

pub type SUNLinearSolverContent_Band = SUNLinearSolverContent_Band_;

} // verus!
