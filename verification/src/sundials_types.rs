use vstd::prelude::*;

verus! {

pub type sunindextype = i64;
pub type suncountertype = i64;
pub type sunbooleantype = bool;
pub type SUNErrCode = i32;
pub type SUNComm = i32;

pub const SUNFALSE: sunbooleantype = false;
pub const SUNTRUE: sunbooleantype = true;

/// A machine index as a mathematical integer.
pub open spec fn usize_int(u: usize) -> int {
    u as int
}

pub const SUN_COMM_NULL: SUNComm = 0;

/// Output format for statistics tables.
#[derive(Debug, Clone, Copy, PartialEq, Eq)]
pub enum SUNOutputFormat {
    SUN_OUTPUTFORMAT_TABLE,
    SUN_OUTPUTFORMAT_CSV,
}

/// Storage mode of a data node.
#[derive(Debug, Clone, Copy, PartialEq, Eq)]
pub enum SUNDataIOMode {
    SUNDATAIOMODE_INMEM,
}

} // verus!
