use vstd::prelude::*;

verus! {

/// Why a sparse LU factorization could not be produced.
#[derive(Clone, Copy, PartialEq, Eq, Structural, Debug)]
pub enum SparseLuError {
    /// A column had no acceptable pivot: the matrix is numerically
    /// singular. Carries the column index.
    Singular(usize),
    /// The compressed-column arrays are not self-consistent.
    Malformed,
}

} // verus!
