use vstd::prelude::*;

verus! {

/// Which vector implementation a vector object is.
#[derive(Debug, Clone, Copy, PartialEq, Eq, Structural)]
pub enum N_Vector_ID {
    SUNDIALS_NVEC_SERIAL,
    SUNDIALS_NVEC_PARALLEL,
    SUNDIALS_NVEC_OPENMP,
    SUNDIALS_NVEC_PTHREADS,
    SUNDIALS_NVEC_PARHYP,
    SUNDIALS_NVEC_PETSC,
    SUNDIALS_NVEC_CUDA,
    SUNDIALS_NVEC_HIP,
    SUNDIALS_NVEC_SYCL,
    SUNDIALS_NVEC_RAJA,
    SUNDIALS_NVEC_KOKKOS,
    SUNDIALS_NVEC_OPENMPDEV,
    SUNDIALS_NVEC_TRILINOS,
    SUNDIALS_NVEC_MANYVECTOR,
    SUNDIALS_NVEC_MPIMANYVECTOR,
    SUNDIALS_NVEC_MPIPLUSX,
    SUNDIALS_NVEC_CUSTOM,
}

} // verus!
