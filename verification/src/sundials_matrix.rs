use vstd::prelude::*;

verus! {

/// Which matrix implementation a matrix object is.
#[derive(Debug, Clone, Copy, PartialEq, Eq, Structural)]
pub enum SUNMatrix_ID {
    SUNMATRIX_DENSE,
    SUNMATRIX_MAGMADENSE,
    SUNMATRIX_ONEMKLDENSE,
    SUNMATRIX_BAND,
    SUNMATRIX_SPARSE,
    SUNMATRIX_SLUNRLOC,
    SUNMATRIX_CUSPARSE,
    SUNMATRIX_GINKGO,
    SUNMATRIX_GINKGOBATCH,
    SUNMATRIX_KOKKOSDENSE,
    SUNMATRIX_CUSTOM,
}

} // verus!
