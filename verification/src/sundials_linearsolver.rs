use vstd::prelude::*;
use vstd::utf8::encode_utf8;
use crate::sundials_cli::{
    option_prefix, option_table, opt_text, scan_options, sunOptionHit, sunOptionSpec, sunScanPrefixedOptions, lemma_scan_one_option, starts_with_bytes,
};

verus! {

/// How a linear solver uses the system matrix.
#[derive(Debug, Clone, Copy, PartialEq, Eq, Structural)]
pub enum SUNLinearSolver_Type {
    SUNLINEARSOLVER_DIRECT,
    SUNLINEARSOLVER_ITERATIVE,
    SUNLINEARSOLVER_MATRIX_ITERATIVE,
    SUNLINEARSOLVER_MATRIX_EMBEDDED,
}

/// Which linear solver implementation a solver object is.
#[derive(Debug, Clone, Copy, PartialEq, Eq, Structural)]
pub enum SUNLinearSolver_ID {
    SUNLINEARSOLVER_BAND,
    SUNLINEARSOLVER_DENSE,
    SUNLINEARSOLVER_KLU,
    SUNLINEARSOLVER_LAPACKBAND,
    SUNLINEARSOLVER_LAPACKDENSE,
    SUNLINEARSOLVER_PCG,
    SUNLINEARSOLVER_SPBCGS,
    SUNLINEARSOLVER_SPFGMR,
    SUNLINEARSOLVER_SPGMR,
    SUNLINEARSOLVER_SPTFQMR,
    SUNLINEARSOLVER_SUPERLUDIST,
    SUNLINEARSOLVER_SUPERLUMT,
    SUNLINEARSOLVER_CUSOLVERSP_BATCHQR,
    SUNLINEARSOLVER_MAGMADENSE,
    SUNLINEARSOLVER_ONEMKLDENSE,
    SUNLINEARSOLVER_GINKGO,
    SUNLINEARSOLVER_GINKGOBATCH,
    SUNLINEARSOLVER_KOKKOSDENSE,
    SUNLINEARSOLVER_CUSTOM,
}

/// The options every linear solver reads, each with the number of values after it.
pub open spec fn linearsolver_options() -> Seq<(Seq<char>, usize)> {
    seq![
        ("zero_guess"@, 1usize),
    ]
}

/// Find the options every linear solver reads on the command line, prefixed by
/// `<id>.` (the id defaulting to `sunlinearsolver`): the options found, in
/// order, and whether each is followed by all of its values.
pub fn scanOptions_LinearSolver(cid: Option<&str>, argv: &[String]) -> (r: (Vec<sunOptionHit>, bool))
    ensures
        (r.0@, r.1) == scan_options(argv@, option_prefix(opt_text(cid), "sunlinearsolver"@), linearsolver_options(), 1),
{
    let mut specs: Vec<sunOptionSpec> = Vec::new();
    specs.push(sunOptionSpec { key: "zero_guess", nvals: 1 });
    assert(option_table(specs@) =~= linearsolver_options());
    sunScanPrefixedOptions(cid, "sunlinearsolver", argv, specs.as_slice())
}

/// Each option of the linear solvers takes the number of values its setter reads
/// (`zero_guess` 1): a command line of the program, the option
/// `sunlinearsolver.<key>` and then arguments that are not options gives that one
/// option, its first value at index two, and a complete scan, exactly when
/// all its values are there; with fewer arguments the scan is incomplete
/// and finds nothing.
pub proof fn law_linearsolver_option_values(argv: Seq<String>, j: int)
    requires
        0 <= j < 1,
        argv.len() >= 2,
        encode_utf8(argv[1]@) == option_prefix(None, "sunlinearsolver"@) + encode_utf8(seq!["zero_guess"@][j]),
        forall|i: int| 2 <= i < argv.len() ==> !starts_with_bytes(
            #[trigger] encode_utf8(argv[i]@),
            option_prefix(None, "sunlinearsolver"@),
        ),
    ensures
        ({
            let nvals = seq![1usize][j];
            let r = scan_options(argv, option_prefix(None, "sunlinearsolver"@), linearsolver_options(), 1);
            &&& argv.len() >= 2 + nvals ==> r == (seq![sunOptionHit { which: j as usize, first: 2 }], true)
            &&& argv.len() < 2 + nvals ==> r == (Seq::<sunOptionHit>::empty(), false)
        }),
{
    reveal_strlit("zero_guess");

    let t = linearsolver_options();
    let key = seq!["zero_guess"@][j];
    assert(t[j].0 == key);
    assert(t[j].1 == seq![1usize][j]);
    assert forall|q: int| 0 <= q < j implies (#[trigger] t[q]).0 != key by {
        assert(t[q].0 == seq!["zero_guess"@][q]);
    }
    lemma_scan_one_option(argv, option_prefix(None, "sunlinearsolver"@), t, j, key);
}

} // verus!
