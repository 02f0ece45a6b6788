use std::any::Any;

use sundials_core::sundials_cli::{
    sunCheckAndSetActionArgs, sunCheckAndSetCharArgs, sunCheckAndSetIntArgs,
    sunCheckAndSetIntLongArgs, sunCheckAndSetLongArgs, sunCheckAndSetTwoCharArgs,
    sunCheckAndSetTwoIntArgs, sunKeyActionPair, sunKeyCharPair, sunKeyIntLongPair, sunKeyIntPair,
    sunKeyLongPair, sunKeyTwoCharPair, sunKeyTwoIntPair, sunCheckAndSetValueArgs, sunFindKey,
};
use sundials_core::sundials_errors::SUN_SUCCESS;
use sundials_core::sundials_types::{SUNFALSE, SUNTRUE};

type Mem = Option<Box<dyn Any>>;
type IntSet = fn(&mut Mem, i32) -> i32;

#[derive(Default)]
struct Target {
    ints: Vec<i32>,
    longs: Vec<i64>,
    reals: Vec<f64>,
    strs: Vec<String>,
    actions: i32,
}

fn target(mem: &mut Mem) -> &mut Target {
    mem.as_mut()
        .expect("mem token present")
        .downcast_mut::<Target>()
        .expect("Target content")
}

fn args(list: &[&str]) -> Vec<String> {
    list.iter().map(|s| s.to_string()).collect()
}

fn set_int(mem: &mut Mem, arg: i32) -> i32 {
    target(mem).ints.push(arg);
    SUN_SUCCESS
}

fn set_int_fail(_mem: &mut Mem, _arg: i32) -> i32 {
    -1
}

fn set_two_int(mem: &mut Mem, arg1: i32, arg2: i32) -> i32 {
    target(mem).ints.push(arg1);
    target(mem).ints.push(arg2);
    SUN_SUCCESS
}

fn set_long(mem: &mut Mem, arg: i64) -> i32 {
    target(mem).longs.push(arg);
    SUN_SUCCESS
}

fn set_int_long(mem: &mut Mem, arg1: i32, arg2: i64) -> i32 {
    target(mem).ints.push(arg1);
    target(mem).longs.push(arg2);
    SUN_SUCCESS
}

fn set_char(mem: &mut Mem, arg: &str) -> i32 {
    target(mem).strs.push(arg.to_string());
    SUN_SUCCESS
}

fn set_two_char(mem: &mut Mem, arg1: &str, arg2: &str) -> i32 {
    target(mem).strs.push(arg1.to_string());
    target(mem).strs.push(arg2.to_string());
    SUN_SUCCESS
}

fn set_action(mem: &mut Mem) -> i32 {
    target(mem).actions += 1;
    SUN_SUCCESS
}

#[test]
fn int_match_consumes_one_value() {
    let mut mem: Mem = Some(Box::new(Target::default()));
    let argv = args(&["prog", "cvode.max_order", "3"]);
    let pairs = [sunKeyIntPair { key: "max_order", set: set_int }];
    let mut idx: i32 = 1;
    let mut used = SUNFALSE;
    let mut failed: i32 = -1;
    /* offset 6 strips "cvode." */
    let retval =
        sunCheckAndSetIntArgs(&mut mem, &mut idx, &argv, 6, &pairs, 1, &mut used, &mut failed);
    assert_eq!(retval, SUN_SUCCESS);
    assert_eq!(used, SUNTRUE);
    assert_eq!(idx, 2);
    assert_eq!(failed, -1);
    assert_eq!(target(&mut mem).ints, vec![3]);
}

#[test]
fn no_match_leaves_index_and_sets_arg_used_false() {
    let mut mem: Mem = Some(Box::new(Target::default()));
    /* "--cvode.max_order" must NOT match with offset for "cvode." */
    let argv = args(&["prog", "--cvode.max_order", "3"]);
    let pairs = [sunKeyIntPair { key: "max_order", set: set_int }];
    let mut idx: i32 = 1;
    let mut used = SUNTRUE;
    let mut failed: i32 = -1;
    let retval =
        sunCheckAndSetIntArgs(&mut mem, &mut idx, &argv, 6, &pairs, 1, &mut used, &mut failed);
    assert_eq!(retval, SUN_SUCCESS);
    assert_eq!(used, SUNFALSE);
    assert_eq!(idx, 1);
    assert!(target(&mut mem).ints.is_empty());
}

#[test]
fn zero_pairs_leaves_arg_used_untouched() {
    let mut mem: Mem = Some(Box::new(Target::default()));
    let argv = args(&["prog", "cvode.max_order", "3"]);
    let pairs: [sunKeyIntPair<IntSet>; 0] = [];
    let mut idx: i32 = 1;
    let mut used = SUNTRUE;
    let mut failed: i32 = -1;
    let retval =
        sunCheckAndSetIntArgs(&mut mem, &mut idx, &argv, 6, &pairs, 0, &mut used, &mut failed);
    assert_eq!(retval, SUN_SUCCESS);
    assert_eq!(used, SUNTRUE); /* untouched */
    assert_eq!(idx, 1);
}

#[test]
fn failing_setter_reports_failedarg_after_consuming_value() {
    let mut mem: Mem = Some(Box::new(Target::default()));
    let argv = args(&["prog", "cvode.max_order", "3"]);
    let pairs = [
        sunKeyIntPair { key: "other", set: set_int as IntSet },
        sunKeyIntPair { key: "max_order", set: set_int_fail as IntSet },
    ];
    let mut idx: i32 = 1;
    let mut used = SUNFALSE;
    let mut failed: i32 = -1;
    let retval =
        sunCheckAndSetIntArgs(&mut mem, &mut idx, &argv, 6, &pairs, 2, &mut used, &mut failed);
    assert_eq!(retval, -1);
    assert_eq!(used, SUNFALSE);
    assert_eq!(failed, 1);
    assert_eq!(idx, 2); /* value index already consumed */
}

#[test]
fn two_int_consumes_two_values() {
    let mut mem: Mem = Some(Box::new(Target::default()));
    let argv = args(&["prog", "ida.orders", "2", "5"]);
    let pairs = [sunKeyTwoIntPair { key: "orders", set: set_two_int }];
    let mut idx: i32 = 1;
    let mut used = SUNFALSE;
    let mut failed: i32 = -1;
    let retval = sunCheckAndSetTwoIntArgs(&mut mem, &mut idx, &argv, 4, &pairs, 1, &mut used,
                                          &mut failed);
    assert_eq!(retval, SUN_SUCCESS);
    assert_eq!(used, SUNTRUE);
    assert_eq!(idx, 3);
    assert_eq!(target(&mut mem).ints, vec![2, 5]);
}

#[test]
fn long_and_real_parsing() {
    let mut mem: Mem = Some(Box::new(Target::default()));
    let argv = args(&["prog", "kinsol.num_max_iters", "12345678901", "kinsol.tol", "1.5e-8"]);
    let long_pairs = [sunKeyLongPair { key: "num_max_iters", set: set_long }];
    let mut idx: i32 = 1;
    let mut used = SUNFALSE;
    let mut failed: i32 = -1;
    let retval = sunCheckAndSetLongArgs(&mut mem, &mut idx, &argv, 7, &long_pairs, 1, &mut used,
                                        &mut failed);
    assert_eq!(retval, SUN_SUCCESS);
    assert_eq!(idx, 2);
    idx += 1;
    // the real option: the library matches it and consumes its value; the
    // value itself is read here
    let real_keys = ["tol"];
    let retval = sunCheckAndSetValueArgs(&mut mem, &mut idx, &argv, 7, &real_keys, 1, 1, &mut used, &mut failed,
        |m: &mut Mem, j: usize, i: usize| {
            assert_eq!(j, 0);
            target(m).reals.push(argv[i].parse::<f64>().unwrap());
            SUN_SUCCESS
        });
    assert_eq!(retval, SUN_SUCCESS);
    assert_eq!(idx, 4);
    assert_eq!(target(&mut mem).longs, vec![12345678901]);
    assert_eq!(target(&mut mem).reals, vec![1.5e-8]);
}

#[test]
fn value_matcher_picks_the_first_key_and_reports_failures() {
    let mut mem: Mem = Some(Box::new(Target::default()));
    let argv = args(&["prog", "arkode.pair", "4", "0.5"]);
    let keys = ["other", "pair", "pair"];
    assert_eq!(sunFindKey(1, &argv, 7, &keys, 3), 1);
    assert_eq!(sunFindKey(1, &argv, 7, &keys, 1), 1);
    let mut idx: i32 = 1;
    let mut used = SUNFALSE;
    let mut failed: i32 = -1;
    let seen = std::cell::RefCell::new(Vec::<(usize, usize)>::new());
    let retval = sunCheckAndSetValueArgs(&mut mem, &mut idx, &argv, 7, &keys, 3, 2, &mut used, &mut failed,
        |_m: &mut Mem, j: usize, i: usize| {
            seen.borrow_mut().push((j, i));
            -3
        });
    assert_eq!(retval, -3);
    assert_eq!(idx, 3);
    assert_eq!(failed, 1);
    assert_eq!(used, SUNFALSE);
    assert_eq!(seen.into_inner(), vec![(1, 2)]);
    // no match: the index stays and the option is marked unused
    let mut idx: i32 = 1;
    let mut used = SUNTRUE;
    let retval = sunCheckAndSetValueArgs(&mut mem, &mut idx, &argv, 7, &keys, 1, 2, &mut used, &mut failed,
        |_m: &mut Mem, _j: usize, _i: usize| -> i32 { panic!("nothing matches") });
    assert_eq!(retval, SUN_SUCCESS);
    assert_eq!(idx, 1);
    assert_eq!(used, SUNFALSE);
}

#[test]
fn two_char_reads_ahead_then_advances_two() {
    let mut mem: Mem = Some(Box::new(Target::default()));
    let argv = args(&["prog", "arkode.tables", "ERK_1", "DIRK_2"]);
    let pairs = [sunKeyTwoCharPair { key: "tables", set: set_two_char }];
    let mut idx: i32 = 1;
    let mut used = SUNFALSE;
    let mut failed: i32 = -1;
    let retval = sunCheckAndSetTwoCharArgs(&mut mem, &mut idx, &argv, 7, &pairs, 1, &mut used,
                                           &mut failed);
    assert_eq!(retval, SUN_SUCCESS);
    assert_eq!(used, SUNTRUE);
    assert_eq!(idx, 3);
    assert_eq!(target(&mut mem).strs, vec!["ERK_1".to_string(), "DIRK_2".to_string()]);
}

#[test]
fn action_consumes_no_values() {
    let mut mem: Mem = Some(Box::new(Target::default()));
    let argv = args(&["prog", "cvode.no_min_step"]);
    let pairs = [sunKeyActionPair { key: "no_min_step", set: set_action }];
    let mut idx: i32 = 1;
    let mut used = SUNFALSE;
    let mut failed: i32 = -1;
    let retval = sunCheckAndSetActionArgs(&mut mem, &mut idx, &argv, 6, &pairs, 1, &mut used,
                                          &mut failed);
    assert_eq!(retval, SUN_SUCCESS);
    assert_eq!(used, SUNTRUE);
    assert_eq!(idx, 1);
    assert_eq!(target(&mut mem).actions, 1);
}

#[test]
fn atoi_semantics_unparsable_gives_zero() {
    let mut mem: Mem = Some(Box::new(Target::default()));
    let argv = args(&["prog", "cvode.max_order", "abc"]);
    let pairs = [sunKeyIntPair { key: "max_order", set: set_int }];
    let mut idx: i32 = 1;
    let mut used = SUNFALSE;
    let mut failed: i32 = -1;
    let retval =
        sunCheckAndSetIntArgs(&mut mem, &mut idx, &argv, 6, &pairs, 1, &mut used, &mut failed);
    assert_eq!(retval, SUN_SUCCESS);
    assert_eq!(target(&mut mem).ints, vec![0]);
}

#[test]
fn int_long_reads_an_int_and_a_long() {
    let mut mem: Mem = Some(Box::new(Target::default()));
    let argv = args(&["prog", "cv.pair", "-7", "  +9000000000x"]);
    let pairs = [sunKeyIntLongPair { key: "pair", set: set_int_long }];
    let mut idx: i32 = 1;
    let mut used = SUNFALSE;
    let mut failed: i32 = -1;
    let retval = sunCheckAndSetIntLongArgs(&mut mem, &mut idx, &argv, 3, &pairs, 1, &mut used,
                                           &mut failed);
    assert_eq!(retval, SUN_SUCCESS);
    assert_eq!(idx, 3);
    assert_eq!(target(&mut mem).ints, vec![-7]);
    assert_eq!(target(&mut mem).longs, vec![9000000000]);
}

#[test]
fn char_hands_the_text_through() {
    let mut mem: Mem = Some(Box::new(Target::default()));
    let argv = args(&["prog", "kin.name", "newton"]);
    let pairs = [
        sunKeyCharPair { key: "other", set: set_char as fn(&mut Mem, &str) -> i32 },
        sunKeyCharPair { key: "name", set: set_char as fn(&mut Mem, &str) -> i32 },
    ];
    let mut idx: i32 = 1;
    let mut used = SUNFALSE;
    let mut failed: i32 = -1;
    let retval =
        sunCheckAndSetCharArgs(&mut mem, &mut idx, &argv, 4, &pairs, 2, &mut used, &mut failed);
    assert_eq!(retval, SUN_SUCCESS);
    assert_eq!(used, SUNTRUE);
    assert_eq!(idx, 2);
    assert_eq!(failed, -1);
    assert_eq!(target(&mut mem).strs, vec!["newton".to_string()]);
}

#[test]
fn only_the_first_numpairs_pairs_are_scanned() {
    let mut mem: Mem = Some(Box::new(Target::default()));
    let argv = args(&["prog", "cvode.max_order", "4"]);
    let pairs = [
        sunKeyIntPair { key: "other", set: set_int as IntSet },
        sunKeyIntPair { key: "max_order", set: set_int as IntSet },
    ];
    let mut idx: i32 = 1;
    let mut used = SUNTRUE;
    let mut failed: i32 = -1;
    let retval =
        sunCheckAndSetIntArgs(&mut mem, &mut idx, &argv, 6, &pairs, 1, &mut used, &mut failed);
    assert_eq!(retval, SUN_SUCCESS);
    assert_eq!(used, SUNFALSE);
    assert_eq!(idx, 1);
    assert!(target(&mut mem).ints.is_empty());
}
