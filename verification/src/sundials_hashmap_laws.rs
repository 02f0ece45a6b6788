use vstd::prelude::*;
use crate::sundials_errors::SUN_ERR_MALLOC_FAIL;
use crate::sundials_hashmap::{
    Slot, SUNHASHMAP_DUPLICATE, SUNHASHMAP_MAX_CAPACITY, empty_slots, first_empty_from,
    first_key_from, grow_capacity, has_key, has_key_at, lemma_first_empty_from,
    lemma_first_key_from, lemma_home_range, lemma_rehash_len, room, spec_find, spec_get,
    spec_home, spec_insert, spec_rehash,
};

verus! {

/// Every entry sits at or after its home bucket, and no key occurs twice:
/// what a map keeps while it is only ever given keys it does not hold.
pub open spec fn wf_slots<V>(s: Seq<Slot<V>>) -> bool {
    &&& forall|i: int|
        0 <= i < s.len() && #[trigger] s[i] is Some ==> spec_home(s[i].unwrap().0, s.len() as int)
            <= i
    &&& forall|i: int, j: int|
        0 <= i < s.len() && 0 <= j < s.len() && #[trigger] s[i] is Some && #[trigger] s[j] is Some
            && s[i].unwrap().0 == s[j].unwrap().0 ==> i == j
}

/// The value stored under `key`, if some bucket holds it.
pub open spec fn lookup<V>(s: Seq<Slot<V>>, key: Seq<char>) -> Option<V> {
    if has_key(s, key) {
        Some(s[choose|p: int| has_key_at(s, p, key)].unwrap().1)
    } else {
        None
    }
}

/// The value stored under `key` in buckets `i` and later, if any holds it.
pub open spec fn lookup_from<V>(s: Seq<Slot<V>>, i: int, key: Seq<char>) -> Option<V> {
    if exists|p: int| i <= p && has_key_at(s, p, key) {
        Some(s[choose|p: int| i <= p && has_key_at(s, p, key)].unwrap().1)
    } else {
        None
    }
}

/// The insertion of `key` never needs to grow a map past the allocation
/// limit, in its own growth or in a growth while rehashing.
pub open spec fn insert_within_limit<V>(s: Seq<Slot<V>>, key: Seq<char>, value: V) -> bool
    decreases room(s.len() as int), 0int, 0int,
{
    let h = spec_home(key, s.len() as int);
    if s.len() == 0 {
        false
    } else if has_key_at(s, h, key) {
        true
    } else if s[h] is None {
        true
    } else if first_empty_from(s, h + 1) < s.len() {
        true
    } else if grow_capacity(s.len() as int) > SUNHASHMAP_MAX_CAPACITY {
        false
    } else {
        let t = spec_rehash(s, empty_slots(grow_capacity(s.len() as int)), 0);
        rehash_within_limit(s, empty_slots(grow_capacity(s.len() as int)), 0) && (t.len()
            > s.len() ==> insert_within_limit(t, key, value))
    }
}

/// Rehashing buckets `i` and later of `old` into `nb` never needs to grow a
/// map past the allocation limit.
pub open spec fn rehash_within_limit<V>(old: Seq<Slot<V>>, nb: Seq<Slot<V>>, i: int) -> bool
    decreases room(nb.len() as int), 1int, old.len() - i,
{
    if i < 0 || i >= old.len() {
        true
    } else {
        let nb1 = spec_rehash(old, nb, i + 1);
        rehash_within_limit(old, nb, i + 1) && match old[i] {
            None => true,
            Some(kv) => nb1.len() >= nb.len() ==> insert_within_limit(nb1, kv.0, kv.1),
        }
    }
}

proof fn lemma_lookup_at<V>(s: Seq<Slot<V>>, p: int, key: Seq<char>)
    requires
        wf_slots(s),
        has_key_at(s, p, key),
    ensures
        lookup(s, key) == Some(s[p].unwrap().1),
{
    let q = choose|q: int| has_key_at(s, q, key);
    assert(s[q] is Some && s[p] is Some);
}

proof fn lemma_lookup_from_at<V>(s: Seq<Slot<V>>, i: int, p: int, key: Seq<char>)
    requires
        wf_slots(s),
        i <= p,
        has_key_at(s, p, key),
    ensures
        lookup_from(s, i, key) == Some(s[p].unwrap().1),
{
    let q = choose|q: int| i <= q && has_key_at(s, q, key);
    assert(s[q] is Some && s[p] is Some);
}

/// A lookup in a well-formed map finds exactly what the map stores.
pub proof fn law_get_is_lookup<V>(s: Seq<Slot<V>>, key: Seq<char>)
    requires
        1 <= s.len(),
        wf_slots(s),
    ensures
        spec_get(s, key) == lookup(s, key),
{
    let h = spec_home(key, s.len() as int);
    lemma_home_range(key, s.len() as int);
    lemma_first_key_from(s, key, h);
    let f = spec_find(s, key);
    if has_key(s, key) {
        let p = choose|p: int| has_key_at(s, p, key);
        lemma_lookup_at(s, p, key);
        assert(s[p] is Some);
        assert(h <= p);
        if f < s.len() {
            assert(s[f] is Some);
            assert(f == p);
        } else {
            assert(!has_key_at(s, p, key));
        }
    } else {
        if f < s.len() {
            assert(has_key_at(s, f, key));
        }
    }
}

/// Inserting a key that no bucket holds, without passing the allocation
/// limit, succeeds; afterwards the key maps to the new value and every
/// other key to what it mapped to before.
pub proof fn law_insert_fresh<V>(s: Seq<Slot<V>>, key: Seq<char>, value: V)
    requires
        1 <= s.len() <= SUNHASHMAP_MAX_CAPACITY,
        wf_slots(s),
        !has_key(s, key),
        insert_within_limit(s, key, value),
    ensures
        spec_insert(s, key, value).1 == 0,
        wf_slots(spec_insert(s, key, value).0),
        forall|k: Seq<char>|
            #[trigger] lookup(spec_insert(s, key, value).0, k) == if k == key {
                Some(value)
            } else {
                lookup(s, k)
            },
    decreases room(s.len() as int), 0int, 0int,
{
    let h = spec_home(key, s.len() as int);
    lemma_home_range(key, s.len() as int);
    lemma_first_empty_from(s, h + 1);
    if s[h] is None {
        let t = s.update(h, Some((key, value)));
        lemma_fresh_place(s, h, key, value);
    } else if first_empty_from(s, h + 1) < s.len() {
        let p = first_empty_from(s, h + 1);
        lemma_fresh_place(s, p, key, value);
    } else {
        let g = grow_capacity(s.len() as int);
        let e = empty_slots::<V>(g);
        lemma_rehash_len(s, e, 0);
        lemma_empty_wf::<V>(g);
        law_rehash(s, e, 0);
        let t = spec_rehash(s, e, 0);
        assert forall|k: Seq<char>| lookup(t, k) == lookup(s, k) by {
            lemma_lookup_from_zero(s, k);
        }
        if has_key(t, key) {
            let p = choose|p: int| has_key_at(t, p, key);
            lemma_lookup_at(t, p, key);
            assert(lookup(s, key) is None);
            assert(false);
        }
        law_insert_fresh(t, key, value);
    }
}

proof fn lemma_fresh_place<V>(s: Seq<Slot<V>>, p: int, key: Seq<char>, value: V)
    requires
        1 <= s.len(),
        wf_slots(s),
        !has_key(s, key),
        0 <= p < s.len(),
        s[p] is None,
        spec_home(key, s.len() as int) <= p,
    ensures
        wf_slots(s.update(p, Some((key, value)))),
        forall|k: Seq<char>|
            #[trigger] lookup(s.update(p, Some((key, value))), k) == if k == key {
                Some(value)
            } else {
                lookup(s, k)
            },
{
    let t = s.update(p, Some((key, value)));
    assert forall|i: int, j: int|
        0 <= i < t.len() && 0 <= j < t.len() && #[trigger] t[i] is Some && #[trigger] t[j] is Some
            && t[i].unwrap().0 == t[j].unwrap().0 implies i == j by {
        if i != p && j != p {
            assert(s[i] is Some && s[j] is Some);
        } else if i == p && j != p {
            assert(has_key_at(s, j, key));
        } else if j == p && i != p {
            assert(has_key_at(s, i, key));
        }
    }
    assert forall|i: int| 0 <= i < t.len() && #[trigger] t[i] is Some implies spec_home(
        t[i].unwrap().0,
        t.len() as int,
    ) <= i by {
        if i != p {
            assert(s[i] is Some);
        }
    }
    assert forall|k: Seq<char>| #[trigger] lookup(t, k) == if k == key {
        Some(value)
    } else {
        lookup(s, k)
    } by {
        if k == key {
            assert(has_key_at(t, p, key));
            lemma_lookup_at(t, p, key);
        } else if has_key(s, k) {
            let q = choose|q: int| has_key_at(s, q, k);
            lemma_lookup_at(s, q, k);
            assert(has_key_at(t, q, k));
            lemma_lookup_at(t, q, k);
        } else {
            if has_key(t, k) {
                let q = choose|q: int| has_key_at(t, q, k);
                assert(q != p);
                assert(has_key_at(s, q, k));
            }
        }
    }
}

proof fn lemma_empty_wf<V>(n: int)
    requires
        n >= 0,
    ensures
        wf_slots(empty_slots::<V>(n)),
        forall|k: Seq<char>| !has_key(#[trigger] empty_slots::<V>(n), k),
{
    assert forall|k: Seq<char>| !has_key(#[trigger] empty_slots::<V>(n), k) by {
        if has_key(empty_slots::<V>(n), k) {
            let p = choose|p: int| has_key_at(empty_slots::<V>(n), p, k);
        }
    }
}

proof fn lemma_lookup_from_zero<V>(s: Seq<Slot<V>>, key: Seq<char>)
    requires
        wf_slots(s),
    ensures
        lookup_from(s, 0, key) == lookup(s, key),
{
    if has_key(s, key) {
        let p = choose|p: int| has_key_at(s, p, key);
        lemma_lookup_at(s, p, key);
        lemma_lookup_from_at(s, 0, p, key);
    } else {
        if exists|p: int| 0 <= p && has_key_at(s, p, key) {
            let p = choose|p: int| 0 <= p && has_key_at(s, p, key);
            assert(has_key(s, key));
        }
    }
}

/// Rehashing the entries of a well-formed map into a well-formed map that
/// holds none of their keys, without passing the allocation limit, keeps
/// every entry.
pub proof fn law_rehash<V>(old: Seq<Slot<V>>, nb: Seq<Slot<V>>, i: int)
    requires
        1 <= nb.len() <= SUNHASHMAP_MAX_CAPACITY,
        wf_slots(old),
        wf_slots(nb),
        0 <= i,
        forall|k: Seq<char>| #[trigger] lookup_from(old, i, k) is Some ==> !has_key(nb, k),
        rehash_within_limit(old, nb, i),
    ensures
        wf_slots(spec_rehash(old, nb, i)),
        forall|k: Seq<char>|
            #[trigger] lookup(spec_rehash(old, nb, i), k) == match lookup_from(old, i, k) {
                Some(v) => Some(v),
                None => lookup(nb, k),
            },
    decreases room(nb.len() as int), 1int, old.len() - i,
{
    if i >= old.len() {
        assert forall|k: Seq<char>| lookup_from(old, i, k) is None by {
            if exists|p: int| i <= p && has_key_at(old, p, k) {
                let p = choose|p: int| i <= p && has_key_at(old, p, k);
            }
        }
    } else {
        assert forall|k: Seq<char>| #[trigger] lookup_from(old, i + 1, k) is Some implies !has_key(
            nb,
            k,
        ) by {
            let p = choose|p: int| i + 1 <= p && has_key_at(old, p, k);
            lemma_lookup_from_at(old, i, p, k);
        }
        law_rehash(old, nb, i + 1);
        lemma_rehash_len(old, nb, i + 1);
        let nb1 = spec_rehash(old, nb, i + 1);
        match old[i] {
            None => {
                assert forall|k: Seq<char>| #[trigger] lookup_from(old, i, k) == lookup_from(
                    old,
                    i + 1,
                    k,
                ) by {
                    if exists|p: int| i <= p && has_key_at(old, p, k) {
                        let p = choose|p: int| i <= p && has_key_at(old, p, k);
                        assert(p != i);
                        lemma_lookup_from_at(old, i, p, k);
                        lemma_lookup_from_at(old, i + 1, p, k);
                    } else if exists|p: int| i + 1 <= p && has_key_at(old, p, k) {
                        let p = choose|p: int| i + 1 <= p && has_key_at(old, p, k);
                        assert(i <= p);
                    }
                }
            },
            Some(kv) => {
                let k0 = kv.0;
                assert(has_key_at(old, i, k0));
                lemma_lookup_from_at(old, i, i, k0);
                assert(!has_key(nb, k0));
                if exists|p: int| i + 1 <= p && has_key_at(old, p, k0) {
                    let p = choose|p: int| i + 1 <= p && has_key_at(old, p, k0);
                    assert(old[p] is Some && old[i] is Some);
                }
                assert(lookup_from(old, i + 1, k0) is None);
                if has_key(nb1, k0) {
                    let p = choose|p: int| has_key_at(nb1, p, k0);
                    lemma_lookup_at(nb1, p, k0);
                    if has_key(nb, k0) {
                    } else {
                        assert(lookup(nb, k0) is None);
                    }
                    assert(false);
                }
                law_insert_fresh(nb1, k0, kv.1);
                assert forall|k: Seq<char>| #[trigger]
                    lookup(spec_rehash(old, nb, i), k) == match lookup_from(old, i, k) {
                        Some(v) => Some(v),
                        None => lookup(nb, k),
                    } by {
                    if k == k0 {
                    } else {
                        if exists|p: int| i <= p && has_key_at(old, p, k) {
                            let p = choose|p: int| i <= p && has_key_at(old, p, k);
                            assert(p != i);
                            lemma_lookup_from_at(old, i, p, k);
                            lemma_lookup_from_at(old, i + 1, p, k);
                        } else if exists|p: int| i + 1 <= p && has_key_at(old, p, k) {
                            let p = choose|p: int| i + 1 <= p && has_key_at(old, p, k);
                            assert(i <= p);
                        }
                    }
                }
            },
        }
    }
}


/// The buckets after removing `key`, as `SUNHashMap_Remove` leaves them.
pub open spec fn spec_remove<V>(s: Seq<Slot<V>>, key: Seq<char>) -> Seq<Slot<V>> {
    if spec_get(s, key) is Some {
        s.update(spec_find(s, key), None)
    } else {
        s
    }
}

/// Removing a key from a well-formed map keeps it well formed, unmaps the
/// key and leaves every other key as it was.
pub proof fn law_remove<V>(s: Seq<Slot<V>>, key: Seq<char>)
    requires
        1 <= s.len(),
        wf_slots(s),
    ensures
        wf_slots(spec_remove(s, key)),
        forall|k: Seq<char>|
            #[trigger] lookup(spec_remove(s, key), k) == if k == key {
                None
            } else {
                lookup(s, k)
            },
{
    law_get_is_lookup(s, key);
    let h = spec_home(key, s.len() as int);
    lemma_home_range(key, s.len() as int);
    lemma_first_key_from(s, key, h);
    if spec_get(s, key) is Some {
        let f = spec_find(s, key);
        let t = s.update(f, None);
        assert(has_key_at(s, f, key));
        assert forall|i: int, j: int|
            0 <= i < t.len() && 0 <= j < t.len() && #[trigger] t[i] is Some && #[trigger] t[j]
                is Some && t[i].unwrap().0 == t[j].unwrap().0 implies i == j by {
            assert(s[i] is Some && s[j] is Some);
        }
        assert forall|i: int| 0 <= i < t.len() && #[trigger] t[i] is Some implies spec_home(
            t[i].unwrap().0,
            t.len() as int,
        ) <= i by {
            assert(s[i] is Some);
        }
        assert forall|k: Seq<char>| #[trigger] lookup(t, k) == if k == key {
            None
        } else {
            lookup(s, k)
        } by {
            if k == key {
                if has_key(t, k) {
                    let q = choose|q: int| has_key_at(t, q, k);
                    assert(s[q] is Some && s[f] is Some);
                }
            } else if has_key(s, k) {
                let q = choose|q: int| has_key_at(s, q, k);
                lemma_lookup_at(s, q, k);
                assert(has_key_at(t, q, k));
                lemma_lookup_at(t, q, k);
            } else if has_key(t, k) {
                let q = choose|q: int| has_key_at(t, q, k);
                assert(has_key_at(s, q, k));
            }
        }
    } else {
        assert forall|k: Seq<char>| #[trigger] lookup(s, k) == if k == key {
            None
        } else {
            lookup(s, k)
        } by {
        }
    }
}

/// Inserting a fresh key and removing it again leaves every key mapped as
/// before.
pub proof fn law_insert_then_remove<V>(s: Seq<Slot<V>>, key: Seq<char>, value: V)
    requires
        1 <= s.len() <= SUNHASHMAP_MAX_CAPACITY,
        wf_slots(s),
        !has_key(s, key),
        insert_within_limit(s, key, value),
    ensures
        forall|k: Seq<char>|
            #[trigger] lookup(spec_remove(spec_insert(s, key, value).0, key), k) == lookup(s, k),
{
    law_insert_fresh(s, key, value);
    crate::sundials_hashmap::lemma_insert_len(s, key, value);
    let t = spec_insert(s, key, value).0;
    law_remove(t, key);
    assert forall|k: Seq<char>| #[trigger]
        lookup(spec_remove(spec_insert(s, key, value).0, key), k) == lookup(s, k) by {
        assert(lookup(t, k) == if k == key {
            Some(value)
        } else {
            lookup(s, k)
        });
        if k == key {
            if has_key(s, key) {
            }
        }
    }
}

/// A key in its own home bucket is refused as a duplicate and leaves the
/// map unchanged.
pub proof fn law_insert_duplicate<V>(s: Seq<Slot<V>>, key: Seq<char>, value: V)
    requires
        1 <= s.len(),
        has_key_at(s, spec_home(key, s.len() as int), key),
    ensures
        spec_insert(s, key, value) == (s, SUNHASHMAP_DUPLICATE),
{
}

/// A fresh map is well formed and maps no key.
pub proof fn law_new_is_empty<V>(n: int, key: Seq<char>)
    requires
        n >= 1,
    ensures
        wf_slots(empty_slots::<V>(n)),
        lookup(empty_slots::<V>(n), key) is None,
        spec_get(empty_slots::<V>(n), key) is None,
{
    lemma_empty_wf::<V>(n);
    law_get_is_lookup(empty_slots::<V>(n), key);
}

/// A lookup sees exactly the keys a well-formed map holds: a key is found
/// if and only if some bucket holds it.
pub proof fn law_found_iff_held<V>(s: Seq<Slot<V>>, key: Seq<char>)
    requires
        1 <= s.len(),
        wf_slots(s),
    ensures
        spec_get(s, key) is Some <==> has_key(s, key),
{
    law_get_is_lookup(s, key);
}

/// Read after write: once a key that no bucket held is inserted into a
/// well-formed map (without passing the allocation limit), a lookup of it
/// gives the value written, and lookups of other keys give what they gave
/// before.
pub proof fn law_get_after_insert<V>(s: Seq<Slot<V>>, key: Seq<char>, value: V, other: Seq<char>)
    requires
        1 <= s.len() <= SUNHASHMAP_MAX_CAPACITY,
        wf_slots(s),
        !has_key(s, key),
        insert_within_limit(s, key, value),
    ensures
        spec_get(spec_insert(s, key, value).0, key) == Some(value),
        other != key ==> spec_get(spec_insert(s, key, value).0, other) == spec_get(s, other),
{
    law_insert_fresh(s, key, value);
    crate::sundials_hashmap::lemma_insert_len(s, key, value);
    let t = spec_insert(s, key, value).0;
    law_get_is_lookup(t, key);
    law_get_is_lookup(t, other);
    law_get_is_lookup(s, other);
    assert(lookup(t, key) == Some(value));
    assert(lookup(t, other) == if other == key { Some(value) } else { lookup(s, other) });
}


/// Some bucket of `s` holds the value `v`.
pub open spec fn holds_value<V>(s: Seq<Slot<V>>, v: V) -> bool {
    exists|j: int| 0 <= j < s.len() && #[trigger] s[j] is Some && s[j].unwrap().1 == v
}

/// Some bucket of `s` at or after `i` holds the value `v`.
pub open spec fn holds_value_from<V>(s: Seq<Slot<V>>, i: int, v: V) -> bool {
    exists|j: int| i <= j < s.len() && #[trigger] s[j] is Some && s[j].unwrap().1 == v
}

/// No value sits in two buckets.
pub open spec fn unique_values<V>(s: Seq<Slot<V>>) -> bool {
    forall|j: int, k: int|
        0 <= j < s.len() && 0 <= k < s.len() && #[trigger] s[j] is Some && #[trigger] s[k] is Some
            && s[j].unwrap().1 == s[k].unwrap().1 ==> j == k
}

proof fn lemma_place_values<V>(s: Seq<Slot<V>>, p: int, key: Seq<char>, value: V)
    requires
        0 <= p < s.len(),
        s[p] is None,
    ensures
        forall|x: V| holds_value(s.update(p, Some((key, value))), x) ==> holds_value(s, x) || x == value,
        unique_values(s) && !holds_value(s, value) ==> unique_values(s.update(p, Some((key, value)))),
{
    let t = s.update(p, Some((key, value)));
    assert forall|x: V| holds_value(t, x) implies holds_value(s, x) || x == value by {
        let j = choose|j: int| 0 <= j < t.len() && #[trigger] t[j] is Some && t[j].unwrap().1 == x;
        if j != p {
            assert(s[j] is Some && s[j].unwrap().1 == x);
        }
    }
    if unique_values(s) && !holds_value(s, value) {
        assert forall|j: int, k: int|
            0 <= j < t.len() && 0 <= k < t.len() && #[trigger] t[j] is Some && #[trigger] t[k] is Some
                && t[j].unwrap().1 == t[k].unwrap().1 implies j == k by {
            if j != p && k != p {
                assert(s[j] is Some && s[k] is Some);
            } else if j == p && k != p {
                assert(s[k] is Some && s[k].unwrap().1 == value);
            } else if j != p && k == p {
                assert(s[j] is Some && s[j].unwrap().1 == value);
            }
        }
    }
}

/// An insertion adds no value but its own: every value held afterwards was
/// held before or is the one inserted; and when that value was not held,
/// no value ends up in two buckets.
pub proof fn lemma_insert_values<V>(s: Seq<Slot<V>>, key: Seq<char>, value: V)
    requires
        1 <= s.len() <= SUNHASHMAP_MAX_CAPACITY,
    ensures
        forall|x: V| holds_value(spec_insert(s, key, value).0, x) ==> holds_value(s, x) || x == value,
        unique_values(s) && !holds_value(s, value) ==> unique_values(spec_insert(s, key, value).0),
    decreases room(s.len() as int), 0int, 0int,
{
    let h = spec_home(key, s.len() as int);
    lemma_home_range(key, s.len() as int);
    lemma_first_empty_from(s, h + 1);
    if has_key_at(s, h, key) {
        assert(spec_insert(s, key, value).0 == s);
    } else if s[h] is None {
        lemma_place_values(s, h, key, value);
        assert(spec_insert(s, key, value).0 == s.update(h, Some((key, value))));
    } else if first_empty_from(s, h + 1) < s.len() {
        lemma_place_values(s, first_empty_from(s, h + 1), key, value);
        assert(spec_insert(s, key, value).0 == s.update(first_empty_from(s, h + 1), Some((key, value))));
    } else if grow_capacity(s.len() as int) > SUNHASHMAP_MAX_CAPACITY {
        assert(spec_insert(s, key, value).0 == s);
    } else {
        let g = grow_capacity(s.len() as int);
        let e = empty_slots::<V>(g);
        lemma_rehash_len(s, e, 0);
        lemma_rehash_values(s, e, 0);
        let t = spec_rehash(s, e, 0);
        assert(forall|x: V| !holds_value(e, x));
        assert forall|x: V| holds_value_from(s, 0, x) implies holds_value(s, x) by {
            let j = choose|j: int| 0 <= j < s.len() && #[trigger] s[j] is Some && s[j].unwrap().1 == x;
            assert(s[j] is Some);
        }
        assert(unique_values(e));
        assert forall|x: V| holds_value(t, x) implies holds_value(s, x) by {
            if holds_value(e, x) {
                let j = choose|j: int| 0 <= j < e.len() && #[trigger] e[j] is Some && e[j].unwrap().1 == x;
                assert(e[j] is None);
            }
            assert(holds_value_from(s, 0, x));
        }
        assert(unique_values(s) ==> unique_values(t));
        assert(t.len() > s.len());
        lemma_insert_values(t, key, value);
        assert(spec_insert(s, key, value) == spec_insert(t, key, value));
    }
}

/// Rehashing adds no value: every value the new buckets hold afterwards
/// was held by them before or by the old buckets from `i` on; and values
/// stay unique when they were unique on both sides and disjoint.
pub proof fn lemma_rehash_values<V>(old: Seq<Slot<V>>, nb: Seq<Slot<V>>, i: int)
    requires
        1 <= nb.len() <= SUNHASHMAP_MAX_CAPACITY,
    ensures
        forall|x: V| holds_value(spec_rehash(old, nb, i), x) ==> holds_value(nb, x) || holds_value_from(old, i, x),
        unique_values(nb) && unique_values(old) && (forall|x: V| holds_value(nb, x) ==> !holds_value_from(old, i, x))
            ==> unique_values(spec_rehash(old, nb, i)),
    decreases room(nb.len() as int), 1int, old.len() - i,
{
    if i < 0 || i >= old.len() {
    } else {
        lemma_rehash_len(old, nb, i + 1);
        lemma_rehash_values(old, nb, i + 1);
        let nb1 = spec_rehash(old, nb, i + 1);
        assert forall|x: V| holds_value_from(old, i + 1, x) implies holds_value_from(old, i, x) by {
            let j = choose|j: int| i + 1 <= j < old.len() && #[trigger] old[j] is Some && old[j].unwrap().1 == x;
            assert(old[j] is Some);
        }
        match old[i] {
            None => {
                assert forall|x: V| holds_value_from(old, i, x) implies holds_value_from(old, i + 1, x) by {
                    let j = choose|j: int| i <= j < old.len() && #[trigger] old[j] is Some && old[j].unwrap().1 == x;
                    assert(old[j] is Some);
                }
            },
            Some(kv) => {
                lemma_insert_values(nb1, kv.0, kv.1);
                assert(old[i] is Some && old[i].unwrap().1 == kv.1);
                assert(holds_value_from(old, i, kv.1));
                if unique_values(nb) && unique_values(old) && (forall|x: V| holds_value(nb, x) ==> !holds_value_from(old, i, x)) {
                    assert(forall|x: V| holds_value(nb, x) ==> !holds_value_from(old, i + 1, x));
                    assert(unique_values(nb1));
                    assert(holds_value(nb, kv.1) ==> !holds_value_from(old, i, kv.1));
                    if holds_value_from(old, i + 1, kv.1) {
                        let j = choose|j: int| i + 1 <= j < old.len() && #[trigger] old[j] is Some && old[j].unwrap().1 == kv.1;
                        assert(old[j] is Some && old[i] is Some);
                        assert(false);
                    }
                    assert(!holds_value(nb1, kv.1));
                }
            },
        }
    }
}

} // verus!
