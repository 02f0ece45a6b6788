use sundials_core::sundials_errors::{SUN_ERR_ARG_OUTOFRANGE, SUN_ERR_MALLOC_FAIL};
use sundials_core::sundials_hashmap::{
    fnv1a_hash, sunHashMapFindIndex, sunHashMapIdxFromKey, SUNHashMap, SUNHashMap_Capacity,
    SUNHashMap_GetValue, SUNHashMap_GetValueMut, SUNHashMap_Insert, SUNHashMap_Iterate,
    SUNHashMap_New, SUNHashMap_Remove, SUNHASHMAP_DUPLICATE, SUNHASHMAP_ERROR,
    SUNHASHMAP_KEYNOTFOUND, SUNHASHMAP_MAX_CAPACITY, SUNHashMap_KeysText, SUNHashMap_PrintKeys,
};
use sundials_core::sundials_futils::SUNFile;
use sundials_core::sundials_hashmap_sort::SUNHashMap_Sort;

fn keys_of<V>(map: &SUNHashMap<V>) -> Vec<Option<String>> {
    map.buckets.iter().map(|b| b.as_ref().map(|kv| kv.key.clone())).collect()
}

#[test]
fn fnv1a_known_values() {
    assert_eq!(fnv1a_hash(""), 1099511628211);
    assert_eq!(fnv1a_hash("a"), 7044963492702714202);
    assert_eq!(fnv1a_hash("abc"), 8606538637775987655);
}

#[test]
fn new_rejects_bad_capacities() {
    assert_eq!(SUNHashMap_New::<i32>(0).err(), Some(SUN_ERR_ARG_OUTOFRANGE));
    assert_eq!(SUNHashMap_New::<i32>(-5).err(), Some(SUN_ERR_ARG_OUTOFRANGE));
    assert_eq!(
        SUNHashMap_New::<i32>(SUNHASHMAP_MAX_CAPACITY as i64 + 1).err(),
        Some(SUN_ERR_MALLOC_FAIL)
    );
    let m = SUNHashMap_New::<i32>(8).unwrap();
    assert_eq!(SUNHashMap_Capacity(&m), 8);
    assert!(m.buckets.iter().all(|b| b.is_none()));
}

#[test]
fn home_bucket_is_hash_mod_capacity_less_one() {
    let m = SUNHashMap_New::<i32>(8).unwrap();
    assert_eq!(sunHashMapIdxFromKey(&m, "d"), 3);
    assert_eq!(sunHashMapIdxFromKey(&m, "x"), 6);
    let one = SUNHashMap_New::<i32>(1).unwrap();
    assert_eq!(sunHashMapIdxFromKey(&one, "x"), 0);
}

#[test]
fn insert_get_remove_round_trip() {
    let mut m = SUNHashMap_New::<i32>(8).unwrap();
    assert_eq!(SUNHashMap_Insert(&mut m, "a", 10), 0);
    assert_eq!(SUNHashMap_Insert(&mut m, "d", 40), 0);
    assert_eq!(SUNHashMap_GetValue(&m, "a"), (0, Some(&10)));
    assert_eq!(SUNHashMap_GetValue(&m, "d"), (0, Some(&40)));
    assert_eq!(SUNHashMap_GetValue(&m, "x"), (SUNHASHMAP_KEYNOTFOUND, None));
    assert_eq!(SUNHashMap_Remove(&mut m, "a"), (0, Some(10)));
    assert_eq!(SUNHashMap_GetValue(&m, "a"), (SUNHASHMAP_KEYNOTFOUND, None));
    assert_eq!(SUNHashMap_Remove(&mut m, "a"), (SUNHASHMAP_KEYNOTFOUND, None));
    assert_eq!(SUNHashMap_GetValue(&m, "d"), (0, Some(&40)));
}

#[test]
fn collisions_probe_forward() {
    let mut m = SUNHashMap_New::<i32>(8).unwrap();
    /* "a", "b" and "c" all have home bucket 1 in eight buckets */
    assert_eq!(SUNHashMap_Insert(&mut m, "a", 1), 0);
    assert_eq!(SUNHashMap_Insert(&mut m, "b", 2), 0);
    assert_eq!(SUNHashMap_Insert(&mut m, "c", 3), 0);
    let k = keys_of(&m);
    assert_eq!(k[1].as_deref(), Some("a"));
    assert_eq!(k[2].as_deref(), Some("b"));
    assert_eq!(k[3].as_deref(), Some("c"));
    assert_eq!(sunHashMapFindIndex(&m, "c"), 3);
    assert_eq!(sunHashMapFindIndex(&m, "zz"), 8);
    /* a removed collider leaves a hole the lookup steps over */
    assert_eq!(SUNHashMap_Remove(&mut m, "b"), (0, Some(2)));
    assert_eq!(SUNHashMap_GetValue(&m, "c"), (0, Some(&3)));
}

#[test]
fn duplicate_in_home_bucket_is_refused() {
    let mut m = SUNHashMap_New::<i32>(8).unwrap();
    assert_eq!(SUNHashMap_Insert(&mut m, "a", 1), 0);
    assert_eq!(SUNHashMap_Insert(&mut m, "a", 2), SUNHASHMAP_DUPLICATE);
    assert_eq!(SUNHashMap_GetValue(&m, "a"), (0, Some(&1)));
}

#[test]
fn duplicate_detection_only_looks_at_the_home_bucket() {
    let mut m = SUNHashMap_New::<i32>(8).unwrap();
    SUNHashMap_Insert(&mut m, "a", 1);
    SUNHashMap_Insert(&mut m, "b", 2);
    SUNHashMap_Remove(&mut m, "a");
    /* "b" sits in bucket 2; its home bucket 1 is now empty */
    assert_eq!(SUNHashMap_Insert(&mut m, "b", 20), 0);
    let k = keys_of(&m);
    assert_eq!(k[1].as_deref(), Some("b"));
    assert_eq!(k[2].as_deref(), Some("b"));
    assert_eq!(SUNHashMap_GetValue(&m, "b"), (0, Some(&20)));
}

#[test]
fn full_probe_grows_and_rehashes() {
    let mut m = SUNHashMap_New::<i32>(2).unwrap();
    assert_eq!(SUNHashMap_Insert(&mut m, "a", 1), 0);
    assert_eq!(SUNHashMap_Insert(&mut m, "b", 2), 0);
    assert_eq!(SUNHashMap_Insert(&mut m, "c", 3), 0);
    assert_eq!(SUNHashMap_Capacity(&m), 3);
    let k = keys_of(&m);
    assert_eq!(k, vec![Some("a".to_string()), Some("b".to_string()), Some("c".to_string())]);
    assert_eq!(SUNHashMap_GetValue(&m, "a"), (0, Some(&1)));
    assert_eq!(SUNHashMap_GetValue(&m, "b"), (0, Some(&2)));
    assert_eq!(SUNHashMap_GetValue(&m, "c"), (0, Some(&3)));
}

#[test]
fn many_inserts_stay_readable() {
    let mut m = SUNHashMap_New::<usize>(1).unwrap();
    for i in 0..200usize {
        let key = format!("key{}", i);
        assert_eq!(SUNHashMap_Insert(&mut m, &key, i), 0);
    }
    for i in 0..200usize {
        let key = format!("key{}", i);
        assert_eq!(SUNHashMap_GetValue(&m, &key), (0, Some(&i)));
    }
    assert!(SUNHashMap_Capacity(&m) >= 200);
}

#[test]
fn get_value_mut_writes_through() {
    let mut m = SUNHashMap_New::<i32>(4).unwrap();
    SUNHashMap_Insert(&mut m, "t", 5);
    {
        let (code, v) = SUNHashMap_GetValueMut(&mut m, "t");
        assert_eq!(code, 0);
        *v.unwrap() += 1;
    }
    assert_eq!(SUNHashMap_GetValue(&m, "t"), (0, Some(&6)));
    let (code, v) = SUNHashMap_GetValueMut(&mut m, "u");
    assert_eq!(code, SUNHASHMAP_KEYNOTFOUND);
    assert!(v.is_none());
}

#[test]
fn iterate_stops_at_first_answer() {
    let mut m = SUNHashMap_New::<i32>(8).unwrap();
    SUNHashMap_Insert(&mut m, "a", 1);
    SUNHashMap_Insert(&mut m, "b", 2);
    let first_empty = SUNHashMap_Iterate(&m, 1, |i, kv| if kv.is_none() { i } else { SUNHASHMAP_ERROR });
    assert_eq!(first_empty, 3);
    let none = SUNHashMap_Iterate(&m, 0, |_, _| SUNHASHMAP_ERROR);
    assert_eq!(none, 8);
}

#[test]
fn sort_orders_by_the_comparator() {
    let mut m = SUNHashMap_New::<i32>(8).unwrap();
    SUNHashMap_Insert(&mut m, "x", 3);
    SUNHashMap_Insert(&mut m, "d", 1);
    SUNHashMap_Insert(&mut m, "a", 2);
    let sorted = SUNHashMap_Sort(&m, |l, r| match (l, r) {
        (Some(l), Some(r)) => l.value.cmp(&r.value),
        (Some(_), None) => std::cmp::Ordering::Less,
        (None, Some(_)) => std::cmp::Ordering::Greater,
        (None, None) => std::cmp::Ordering::Equal,
    })
    .unwrap();
    assert_eq!(sorted.len(), 8);
    let vals: Vec<i32> = sorted.iter().filter_map(|e| e.map(|kv| kv.value)).collect();
    assert_eq!(vals, vec![1, 2, 3]);
    assert!(sorted[3..].iter().all(|e| e.is_none()));
}

#[test]
fn print_keys_lists_occupied_buckets_in_order() {
    let mut m = SUNHashMap_New::<i32>(8).unwrap();
    assert_eq!(SUNHashMap_KeysText(&m), "[]\n");
    assert_eq!(SUNHashMap_Insert(&mut m, "a", 1), 0);
    assert_eq!(SUNHashMap_Insert(&mut m, "d", 2), 0);
    // "x" lands in bucket 6, after "a" (bucket 1) and "d" (bucket 3)
    assert_eq!(SUNHashMap_Insert(&mut m, "x", 3), 0);
    let expected = String::from("[a, d, x, ]\n");
    assert_eq!(SUNHashMap_KeysText(&m), expected);
    let written = std::cell::RefCell::new(Vec::<(SUNFile, String)>::new());
    SUNHashMap_PrintKeys(&m, SUNFile::Stdout, |f, t: &str| written.borrow_mut().push((f, t.to_string())));
    assert_eq!(written.into_inner(), vec![(SUNFile::Stdout, expected)]);
}
