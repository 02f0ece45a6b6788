use vstd::prelude::*;
use vstd::utf8::encode_utf8;
use crate::sundials_cli::{
    option_prefix, option_table, opt_text, scan_options, sunOptionHit, sunOptionSpec, sunScanPrefixedOptions, lemma_scan_one_option, starts_with_bytes,
};

verus! {

/// The options of the MRI step and tolerance controller, each with the number of values after it.
pub open spec fn mrihtol_options() -> Seq<(Seq<char>, usize)> {
    seq![
        ("params_mrihtol"@, 3usize),
        ("write_parameters"@, 0usize),
    ]
}

/// Find the options of the MRI step and tolerance controller on the command line, prefixed by
/// `<id>.` (the id defaulting to `sunadaptcontroller`): the options found, in
/// order, and whether each is followed by all of its values.
pub fn scanOptions_MRIHTol(cid: Option<&str>, argv: &[String]) -> (r: (Vec<sunOptionHit>, bool))
    ensures
        (r.0@, r.1) == scan_options(argv@, option_prefix(opt_text(cid), "sunadaptcontroller"@), mrihtol_options(), 1),
{
    let mut specs: Vec<sunOptionSpec> = Vec::new();
    specs.push(sunOptionSpec { key: "params_mrihtol", nvals: 3 });
    specs.push(sunOptionSpec { key: "write_parameters", nvals: 0 });
    assert(option_table(specs@) =~= mrihtol_options());
    sunScanPrefixedOptions(cid, "sunadaptcontroller", argv, specs.as_slice())
}

/// Each option of the MRI H-tolerance controller takes the number of values its setter reads
/// (`params_mrihtol` 3, `write_parameters` 0): a command line of the program, the option
/// `sunadaptcontroller.<key>` and then arguments that are not options gives that one
/// option, its first value at index two, and a complete scan, exactly when
/// all its values are there; with fewer arguments the scan is incomplete
/// and finds nothing.
pub proof fn law_mrihtol_option_values(argv: Seq<String>, j: int)
    requires
        0 <= j < 2,
        argv.len() >= 2,
        encode_utf8(argv[1]@) == option_prefix(None, "sunadaptcontroller"@) + encode_utf8(seq!["params_mrihtol"@, "write_parameters"@][j]),
        forall|i: int| 2 <= i < argv.len() ==> !starts_with_bytes(
            #[trigger] encode_utf8(argv[i]@),
            option_prefix(None, "sunadaptcontroller"@),
        ),
    ensures
        ({
            let nvals = seq![3usize, 0usize][j];
            let r = scan_options(argv, option_prefix(None, "sunadaptcontroller"@), mrihtol_options(), 1);
            &&& argv.len() >= 2 + nvals ==> r == (seq![sunOptionHit { which: j as usize, first: 2 }], true)
            &&& argv.len() < 2 + nvals ==> r == (Seq::<sunOptionHit>::empty(), false)
        }),
{
    reveal_strlit("params_mrihtol");
    reveal_strlit("write_parameters");

    let t = mrihtol_options();
    let key = seq!["params_mrihtol"@, "write_parameters"@][j];
    assert(t[j].0 == key);
    assert(t[j].1 == seq![3usize, 0usize][j]);
    assert forall|q: int| 0 <= q < j implies (#[trigger] t[q]).0 != key by {
        assert(t[q].0 == seq!["params_mrihtol"@, "write_parameters"@][q]);
    }
    lemma_scan_one_option(argv, option_prefix(None, "sunadaptcontroller"@), t, j, key);
}

} // verus!
