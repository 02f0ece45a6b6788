use vstd::prelude::*;
use vstd::utf8::encode_utf8;
use crate::sundials_cli::{
    option_prefix, option_table, opt_text, scan_options, sunOptionHit, sunOptionSpec, sunScanPrefixedOptions, lemma_scan_one_option, starts_with_bytes,
};

verus! {

/// The options of the Soderlind controller, each with the number of values after it.
pub open spec fn soderlind_options() -> Seq<(Seq<char>, usize)> {
    seq![
        ("params_soderlind"@, 5usize),
        ("params_pid"@, 3usize),
        ("params_pi"@, 2usize),
        ("params_i"@, 1usize),
        ("params_expgus"@, 2usize),
        ("params_impgus"@, 2usize),
        ("write_parameters"@, 0usize),
    ]
}

/// Find the options of the Soderlind controller on the command line, prefixed by
/// `<id>.` (the id defaulting to `sunadaptcontroller`): the options found, in
/// order, and whether each is followed by all of its values.
pub fn scanOptions_Soderlind(cid: Option<&str>, argv: &[String]) -> (r: (Vec<sunOptionHit>, bool))
    ensures
        (r.0@, r.1) == scan_options(argv@, option_prefix(opt_text(cid), "sunadaptcontroller"@), soderlind_options(), 1),
{
    let mut specs: Vec<sunOptionSpec> = Vec::new();
    specs.push(sunOptionSpec { key: "params_soderlind", nvals: 5 });
    specs.push(sunOptionSpec { key: "params_pid", nvals: 3 });
    specs.push(sunOptionSpec { key: "params_pi", nvals: 2 });
    specs.push(sunOptionSpec { key: "params_i", nvals: 1 });
    specs.push(sunOptionSpec { key: "params_expgus", nvals: 2 });
    specs.push(sunOptionSpec { key: "params_impgus", nvals: 2 });
    specs.push(sunOptionSpec { key: "write_parameters", nvals: 0 });
    assert(option_table(specs@) =~= soderlind_options());
    sunScanPrefixedOptions(cid, "sunadaptcontroller", argv, specs.as_slice())
}

/// Each option of the Soderlind controller takes the number of values its setter reads
/// (`params_soderlind` 5, `params_pid` 3, `params_pi` 2, `params_i` 1, `params_expgus` 2, `params_impgus` 2, `write_parameters` 0): a command line of the program, the option
/// `sunadaptcontroller.<key>` and then arguments that are not options gives that one
/// option, its first value at index two, and a complete scan, exactly when
/// all its values are there; with fewer arguments the scan is incomplete
/// and finds nothing.
pub proof fn law_soderlind_option_values(argv: Seq<String>, j: int)
    requires
        0 <= j < 7,
        argv.len() >= 2,
        encode_utf8(argv[1]@) == option_prefix(None, "sunadaptcontroller"@) + encode_utf8(seq!["params_soderlind"@, "params_pid"@, "params_pi"@, "params_i"@, "params_expgus"@, "params_impgus"@, "write_parameters"@][j]),
        forall|i: int| 2 <= i < argv.len() ==> !starts_with_bytes(
            #[trigger] encode_utf8(argv[i]@),
            option_prefix(None, "sunadaptcontroller"@),
        ),
    ensures
        ({
            let nvals = seq![5usize, 3usize, 2usize, 1usize, 2usize, 2usize, 0usize][j];
            let r = scan_options(argv, option_prefix(None, "sunadaptcontroller"@), soderlind_options(), 1);
            &&& argv.len() >= 2 + nvals ==> r == (seq![sunOptionHit { which: j as usize, first: 2 }], true)
            &&& argv.len() < 2 + nvals ==> r == (Seq::<sunOptionHit>::empty(), false)
        }),
{
    reveal_strlit("params_soderlind");
    reveal_strlit("params_pid");
    reveal_strlit("params_pi");
    reveal_strlit("params_i");
    reveal_strlit("params_expgus");
    reveal_strlit("params_impgus");
    reveal_strlit("write_parameters");
    assert("params_soderlind"@[0] != "write_parameters"@[0]);
    assert("params_expgus"@[7] != "params_impgus"@[7]);
    let t = soderlind_options();
    let key = seq!["params_soderlind"@, "params_pid"@, "params_pi"@, "params_i"@, "params_expgus"@, "params_impgus"@, "write_parameters"@][j];
    assert(t[j].0 == key);
    assert(t[j].1 == seq![5usize, 3usize, 2usize, 1usize, 2usize, 2usize, 0usize][j]);
    assert forall|q: int| 0 <= q < j implies (#[trigger] t[q]).0 != key by {
        assert(t[q].0 == seq!["params_soderlind"@, "params_pid"@, "params_pi"@, "params_i"@, "params_expgus"@, "params_impgus"@, "write_parameters"@][q]);
    }
    lemma_scan_one_option(argv, option_prefix(None, "sunadaptcontroller"@), t, j, key);
}

} // verus!
