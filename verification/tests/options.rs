use sundials_core::sunadaptcontroller_imexgus::scanOptions_ImExGus;
use sundials_core::sunadaptcontroller_mrihtol::scanOptions_MRIHTol;
use sundials_core::sunadaptcontroller_soderlind::scanOptions_Soderlind;
use sundials_core::sundials_adaptcontroller::scanOptions_AdaptController;
use sundials_core::sundials_cli::{sunOptionHit, sunOptionSpec, sunScanPrefixedOptions};
use sundials_core::sundials_domeigestimator::scanOptions_DomEigEstimator;
use sundials_core::sundials_linearsolver::scanOptions_LinearSolver;
use sundials_core::sundials_nonlinearsolver::scanOptions_NonlinearSolver;

fn args(v: &[&str]) -> Vec<String> {
    v.iter().map(|s| s.to_string()).collect()
}

fn hit(which: usize, first: usize) -> sunOptionHit {
    sunOptionHit { which, first }
}

#[test]
fn scan_skips_the_program_name_and_foreign_arguments() {
    let specs = [sunOptionSpec { key: "a", nvals: 1 }, sunOptionSpec { key: "b", nvals: 0 }];
    let argv = args(&["x.a", "x.a", "7", "y.a", "x.c", "x.b", "x.a", "9"]);
    let (hits, complete) = sunScanPrefixedOptions(Some("x"), "def", &argv, &specs);
    assert_eq!(hits, vec![hit(0, 2), hit(1, 6), hit(0, 7)]);
    assert!(complete);
}

#[test]
fn scan_uses_the_default_id_when_none_or_empty() {
    let specs = [sunOptionSpec { key: "k", nvals: 0 }];
    let argv = args(&["prog", "def.k", "x.k"]);
    assert_eq!(sunScanPrefixedOptions(None, "def", &argv, &specs), (vec![hit(0, 2)], true));
    assert_eq!(sunScanPrefixedOptions(Some(""), "def", &argv, &specs), (vec![hit(0, 2)], true));
    assert_eq!(sunScanPrefixedOptions(Some("x"), "def", &argv, &specs), (vec![hit(0, 3)], true));
    assert_eq!(sunScanPrefixedOptions(None, "def", &[], &specs), (vec![], true));
}

#[test]
fn scan_stops_where_values_run_out() {
    let specs = [sunOptionSpec { key: "two", nvals: 2 }];
    let argv = args(&["prog", "p.two", "1", "2", "p.two", "3"]);
    assert_eq!(sunScanPrefixedOptions(Some("p"), "d", &argv, &specs), (vec![hit(0, 2)], false));
}

#[test]
fn a_value_that_looks_like_an_option_is_still_a_value() {
    let specs = [sunOptionSpec { key: "one", nvals: 1 }];
    let argv = args(&["prog", "p.one", "p.one", "p.one", "5"]);
    assert_eq!(sunScanPrefixedOptions(Some("p"), "d", &argv, &specs), (vec![hit(0, 2), hit(0, 4)], true));
}

#[test]
fn controller_and_solver_option_tables() {
    let argv = args(&[
        "prog",
        "sunadaptcontroller.params_pi",
        "0.1",
        "0.2",
        "sunadaptcontroller.write_parameters",
        "sunadaptcontroller.params_soderlind",
        "1",
        "2",
        "3",
        "4",
        "5",
    ]);
    assert_eq!(scanOptions_Soderlind(None, &argv), (vec![hit(2, 2), hit(6, 5), hit(0, 6)], true));
    assert_eq!(scanOptions_ImExGus(None, &argv), (vec![hit(1, 5)], true));
    assert_eq!(scanOptions_MRIHTol(None, &argv), (vec![hit(1, 5)], true));
    assert_eq!(scanOptions_AdaptController(None, &argv), (vec![], true));

    let argv = args(&["prog", "c.error_bias", "1.5", "c.defaults"]);
    assert_eq!(scanOptions_AdaptController(Some("c"), &argv), (vec![hit(1, 2), hit(0, 4)], true));

    let argv = args(&["prog", "sunlinearsolver.zero_guess", "1", "sunnonlinearsolver.max_iters", "4"]);
    assert_eq!(scanOptions_LinearSolver(None, &argv), (vec![hit(0, 2)], true));
    assert_eq!(scanOptions_NonlinearSolver(None, &argv), (vec![hit(0, 4)], true));

    let argv = args(&["prog", "sundomeigestimator.rel_tol", "1e-3", "sundomeigestimator.max_iters"]);
    assert_eq!(scanOptions_DomEigEstimator(None, &argv), (vec![hit(2, 2)], false));
}
