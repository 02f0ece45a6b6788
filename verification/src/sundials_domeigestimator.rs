use vstd::prelude::*;
use vstd::utf8::encode_utf8;
use crate::sundials_cli::{
    option_prefix, option_table, opt_text, scan_options, sunOptionHit, sunOptionSpec, sunScanPrefixedOptions, lemma_scan_one_option, starts_with_bytes,
};

verus! {

/// The options of a dominant eigenvalue estimator, each with the number of values after it.
pub open spec fn domeigestimator_options() -> Seq<(Seq<char>, usize)> {
    seq![
        ("max_iters"@, 1usize),
        ("num_preprocess_iters"@, 1usize),
        ("rel_tol"@, 1usize),
    ]
}

/// Find the options of a dominant eigenvalue estimator on the command line, prefixed by
/// `<id>.` (the id defaulting to `sundomeigestimator`): the options found, in
/// order, and whether each is followed by all of its values.
pub fn scanOptions_DomEigEstimator(cid: Option<&str>, argv: &[String]) -> (r: (Vec<sunOptionHit>, bool))
    ensures
        (r.0@, r.1) == scan_options(argv@, option_prefix(opt_text(cid), "sundomeigestimator"@), domeigestimator_options(), 1),
{
    let mut specs: Vec<sunOptionSpec> = Vec::new();
    specs.push(sunOptionSpec { key: "max_iters", nvals: 1 });
    specs.push(sunOptionSpec { key: "num_preprocess_iters", nvals: 1 });
    specs.push(sunOptionSpec { key: "rel_tol", nvals: 1 });
    assert(option_table(specs@) =~= domeigestimator_options());
    sunScanPrefixedOptions(cid, "sundomeigestimator", argv, specs.as_slice())
}

/// Each option of the eigenvalue estimators takes the number of values its setter reads
/// (`max_iters` 1, `num_preprocess_iters` 1, `rel_tol` 1): a command line of the program, the option
/// `sundomeigestimator.<key>` and then arguments that are not options gives that one
/// option, its first value at index two, and a complete scan, exactly when
/// all its values are there; with fewer arguments the scan is incomplete
/// and finds nothing.
pub proof fn law_domeigestimator_option_values(argv: Seq<String>, j: int)
    requires
        0 <= j < 3,
        argv.len() >= 2,
        encode_utf8(argv[1]@) == option_prefix(None, "sundomeigestimator"@) + encode_utf8(seq!["max_iters"@, "num_preprocess_iters"@, "rel_tol"@][j]),
        forall|i: int| 2 <= i < argv.len() ==> !starts_with_bytes(
            #[trigger] encode_utf8(argv[i]@),
            option_prefix(None, "sundomeigestimator"@),
        ),
    ensures
        ({
            let nvals = seq![1usize, 1usize, 1usize][j];
            let r = scan_options(argv, option_prefix(None, "sundomeigestimator"@), domeigestimator_options(), 1);
            &&& argv.len() >= 2 + nvals ==> r == (seq![sunOptionHit { which: j as usize, first: 2 }], true)
            &&& argv.len() < 2 + nvals ==> r == (Seq::<sunOptionHit>::empty(), false)
        }),
{
    reveal_strlit("max_iters");
    reveal_strlit("num_preprocess_iters");
    reveal_strlit("rel_tol");

    let t = domeigestimator_options();
    let key = seq!["max_iters"@, "num_preprocess_iters"@, "rel_tol"@][j];
    assert(t[j].0 == key);
    assert(t[j].1 == seq![1usize, 1usize, 1usize][j]);
    assert forall|q: int| 0 <= q < j implies (#[trigger] t[q]).0 != key by {
        assert(t[q].0 == seq!["max_iters"@, "num_preprocess_iters"@, "rel_tol"@][q]);
    }
    lemma_scan_one_option(argv, option_prefix(None, "sundomeigestimator"@), t, j, key);
}

} // verus!
