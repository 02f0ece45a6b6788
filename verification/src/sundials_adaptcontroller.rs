use vstd::prelude::*;
use vstd::utf8::encode_utf8;
use crate::sundials_cli::{
    option_prefix, option_table, opt_text, scan_options, sunOptionHit, sunOptionSpec, sunScanPrefixedOptions, lemma_scan_one_option, starts_with_bytes,
};

verus! {

/// What a step-size controller adapts.
#[derive(Debug, Clone, Copy, PartialEq, Eq, Structural)]
pub enum SUNAdaptController_Type {
    /// an empty controller that does nothing
    SUN_ADAPTCONTROLLER_NONE,
    /// controls a single-rate step size
    SUN_ADAPTCONTROLLER_H,
    /// controls a slow step size and a fast relative tolerance
    SUN_ADAPTCONTROLLER_MRI_H_TOL,
}

/// The options every step-size controller reads, each with the number of values after it.
pub open spec fn adaptcontroller_options() -> Seq<(Seq<char>, usize)> {
    seq![
        ("defaults"@, 0usize),
        ("error_bias"@, 1usize),
    ]
}

/// Find the options every step-size controller reads on the command line, prefixed by
/// `<id>.` (the id defaulting to `sunadaptcontroller`): the options found, in
/// order, and whether each is followed by all of its values.
pub fn scanOptions_AdaptController(cid: Option<&str>, argv: &[String]) -> (r: (Vec<sunOptionHit>, bool))
    ensures
        (r.0@, r.1) == scan_options(argv@, option_prefix(opt_text(cid), "sunadaptcontroller"@), adaptcontroller_options(), 1),
{
    let mut specs: Vec<sunOptionSpec> = Vec::new();
    specs.push(sunOptionSpec { key: "defaults", nvals: 0 });
    specs.push(sunOptionSpec { key: "error_bias", nvals: 1 });
    assert(option_table(specs@) =~= adaptcontroller_options());
    sunScanPrefixedOptions(cid, "sunadaptcontroller", argv, specs.as_slice())
}

/// Each option of the adaptivity controllers takes the number of values its setter reads
/// (`defaults` 0, `error_bias` 1): a command line of the program, the option
/// `sunadaptcontroller.<key>` and then arguments that are not options gives that one
/// option, its first value at index two, and a complete scan, exactly when
/// all its values are there; with fewer arguments the scan is incomplete
/// and finds nothing.
pub proof fn law_adaptcontroller_option_values(argv: Seq<String>, j: int)
    requires
        0 <= j < 2,
        argv.len() >= 2,
        encode_utf8(argv[1]@) == option_prefix(None, "sunadaptcontroller"@) + encode_utf8(seq!["defaults"@, "error_bias"@][j]),
        forall|i: int| 2 <= i < argv.len() ==> !starts_with_bytes(
            #[trigger] encode_utf8(argv[i]@),
            option_prefix(None, "sunadaptcontroller"@),
        ),
    ensures
        ({
            let nvals = seq![0usize, 1usize][j];
            let r = scan_options(argv, option_prefix(None, "sunadaptcontroller"@), adaptcontroller_options(), 1);
            &&& argv.len() >= 2 + nvals ==> r == (seq![sunOptionHit { which: j as usize, first: 2 }], true)
            &&& argv.len() < 2 + nvals ==> r == (Seq::<sunOptionHit>::empty(), false)
        }),
{
    reveal_strlit("defaults");
    reveal_strlit("error_bias");

    let t = adaptcontroller_options();
    let key = seq!["defaults"@, "error_bias"@][j];
    assert(t[j].0 == key);
    assert(t[j].1 == seq![0usize, 1usize][j]);
    assert forall|q: int| 0 <= q < j implies (#[trigger] t[q]).0 != key by {
        assert(t[q].0 == seq!["defaults"@, "error_bias"@][q]);
    }
    lemma_scan_one_option(argv, option_prefix(None, "sunadaptcontroller"@), t, j, key);
}

} // verus!
