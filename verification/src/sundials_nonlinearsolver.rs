use vstd::prelude::*;
use vstd::utf8::encode_utf8;
use crate::sundials_cli::{
    option_prefix, option_table, opt_text, scan_options, sunOptionHit, sunOptionSpec, sunScanPrefixedOptions, lemma_scan_one_option, starts_with_bytes,
};

verus! {

/// How a nonlinear solver poses the system it solves.
#[derive(Debug, Clone, Copy, PartialEq, Eq, Structural)]
pub enum SUNNonlinearSolver_Type {
    SUNNONLINEARSOLVER_ROOTFIND,
    SUNNONLINEARSOLVER_FIXEDPOINT,
    SUNNONLINEARSOLVER_HYBRID,
}

/// Recoverable return codes of a nonlinear solver.
pub const SUN_NLS_CONTINUE: i32 = 901;
pub const SUN_NLS_CONV_RECVR: i32 = 902;
pub const SUN_NLS_SWITCH: i32 = 903;

/// The options every nonlinear solver reads, each with the number of values after it.
pub open spec fn nonlinearsolver_options() -> Seq<(Seq<char>, usize)> {
    seq![
        ("max_iters"@, 1usize),
    ]
}

/// Find the options every nonlinear solver reads on the command line, prefixed by
/// `<id>.` (the id defaulting to `sunnonlinearsolver`): the options found, in
/// order, and whether each is followed by all of its values.
pub fn scanOptions_NonlinearSolver(cid: Option<&str>, argv: &[String]) -> (r: (Vec<sunOptionHit>, bool))
    ensures
        (r.0@, r.1) == scan_options(argv@, option_prefix(opt_text(cid), "sunnonlinearsolver"@), nonlinearsolver_options(), 1),
{
    let mut specs: Vec<sunOptionSpec> = Vec::new();
    specs.push(sunOptionSpec { key: "max_iters", nvals: 1 });
    assert(option_table(specs@) =~= nonlinearsolver_options());
    sunScanPrefixedOptions(cid, "sunnonlinearsolver", argv, specs.as_slice())
}

/// Each option of the nonlinear solvers takes the number of values its setter reads
/// (`max_iters` 1): a command line of the program, the option
/// `sunnonlinearsolver.<key>` and then arguments that are not options gives that one
/// option, its first value at index two, and a complete scan, exactly when
/// all its values are there; with fewer arguments the scan is incomplete
/// and finds nothing.
pub proof fn law_nonlinearsolver_option_values(argv: Seq<String>, j: int)
    requires
        0 <= j < 1,
        argv.len() >= 2,
        encode_utf8(argv[1]@) == option_prefix(None, "sunnonlinearsolver"@) + encode_utf8(seq!["max_iters"@][j]),
        forall|i: int| 2 <= i < argv.len() ==> !starts_with_bytes(
            #[trigger] encode_utf8(argv[i]@),
            option_prefix(None, "sunnonlinearsolver"@),
        ),
    ensures
        ({
            let nvals = seq![1usize][j];
            let r = scan_options(argv, option_prefix(None, "sunnonlinearsolver"@), nonlinearsolver_options(), 1);
            &&& argv.len() >= 2 + nvals ==> r == (seq![sunOptionHit { which: j as usize, first: 2 }], true)
            &&& argv.len() < 2 + nvals ==> r == (Seq::<sunOptionHit>::empty(), false)
        }),
{
    reveal_strlit("max_iters");

    let t = nonlinearsolver_options();
    let key = seq!["max_iters"@][j];
    assert(t[j].0 == key);
    assert(t[j].1 == seq![1usize][j]);
    assert forall|q: int| 0 <= q < j implies (#[trigger] t[q]).0 != key by {
        assert(t[q].0 == seq!["max_iters"@][q]);
    }
    lemma_scan_one_option(argv, option_prefix(None, "sunnonlinearsolver"@), t, j, key);
}

} // verus!
