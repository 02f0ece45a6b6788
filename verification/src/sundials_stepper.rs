use vstd::prelude::*;

verus! {

/// When a stepper is asked for the full right-hand side.
#[derive(Debug, Clone, Copy, PartialEq, Eq, Structural)]
pub enum SUNFullRhsMode {
    /// at the start of a step
    SUN_FULLRHS_START,
    /// at the end of a step
    SUN_FULLRHS_END,
    /// anywhere else
    SUN_FULLRHS_OTHER,
}

} // verus!
