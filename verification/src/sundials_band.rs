use vstd::prelude::*;
use crate::sundials_types::sunindextype;

verus! {

/// Storage row of entry `(i, j)` of a band matrix within column `j`, whose
/// diagonal sits at row `smu`: `i - j + smu`.
pub fn ROW(i: sunindextype, j: sunindextype, smu: sunindextype) -> (r: sunindextype)
    requires
        i64::MIN <= i - j <= i64::MAX,
        i64::MIN <= i - j + smu <= i64::MAX,
    ensures
        r == i - j + smu,
{
    i - j + smu
}

} // verus!
