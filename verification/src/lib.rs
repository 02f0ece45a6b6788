//! Verified core utilities of a SUNDIALS-style numerical library: the
//! open-addressing string-keyed hash map, the command-line option matchers,
//! C-style integer parsing, the logger's routing decisions, file-handle
//! bookkeeping, version queries, error messages and integer math helpers.
#![allow(non_snake_case, non_camel_case_types, non_upper_case_globals)]

pub mod sundials_types;
pub mod sundials_errors;
pub mod sundials_hashmap;
pub mod sundials_hashmap_laws;
pub mod sundials_hashmap_sort;
pub mod sundials_utils;
pub mod sundials_cli;
pub mod sundials_version;
pub mod sundials_math;
pub mod sundials_futils;
pub mod sundials_logger;
pub mod sundials_band;
pub mod sundials_memory;
pub mod sundials_adaptcontroller;
pub mod sundials_datanode;
pub mod sundials_linearsolver;
pub mod sundials_matrix;
pub mod sundials_nonlinearsolver;
pub mod sundials_nvector;
pub mod sundials_stepper;
pub mod sundials_profiler;
pub mod sundials_sparse_lu;
pub mod sunlinsol_band;
pub mod sunlinsol_dense;
pub mod sunadjointcheckpointscheme_fixed;
pub mod sundials_context;
pub mod sunadaptcontroller_soderlind;
pub mod sunadaptcontroller_imexgus;
pub mod sunadaptcontroller_mrihtol;
pub mod sundials_domeigestimator;
