use vstd::prelude::*;
use vstd::utf8::encode_utf8;
use crate::sundials_errors::{SUN_ERR_ARG_OUTOFRANGE, SUN_ERR_MALLOC_FAIL, SUN_SUCCESS};
use crate::sundials_types::SUNErrCode;
use crate::sundials_utils::str_eq;
use crate::sundials_futils::SUNFile;

verus! {

/// Return code of a failed map operation.
pub const SUNHASHMAP_ERROR: i64 = -99;
/// Return code of a lookup or removal of an absent key.
pub const SUNHASHMAP_KEYNOTFOUND: i64 = -1;
/// Return code of an insertion whose key already sits in its home bucket.
pub const SUNHASHMAP_DUPLICATE: i64 = -2;
/// Largest bucket count the map allocates; growing past it reports
/// `SUN_ERR_MALLOC_FAIL`, since no allocation of that size can succeed.
pub const SUNHASHMAP_MAX_CAPACITY: usize = usize::MAX / 16;

/// The FNV-1a constants. The hash starts from `HASH_OFFSET_BASIS` and
/// multiplies by `HASH_PRIME`: the two standard values in swapped roles,
/// which fixes the buckets keys land in.
pub const HASH_PRIME: u64 = 14695981039346656037;
pub const HASH_OFFSET_BASIS: u64 = 1099511628211;

/// One occupied bucket: an owned key and its value.
pub struct SUNHashMapKeyValue_<V> {
    pub key: String,
    pub value: V,
}

pub type SUNHashMapKeyValue<V> = Box<SUNHashMapKeyValue_<V>>;

/// An open-addressing hash map from string keys to values: every bucket
/// is empty or holds one key-value pair; a key's home bucket is its hash
/// modulo one less than the bucket count, and collisions probe forward.
pub struct SUNHashMap<V> {
    pub buckets: Vec<Option<SUNHashMapKeyValue<V>>>,
}

/// A bucket as the contracts see it.
pub type Slot<V> = Option<(Seq<char>, V)>;

pub open spec fn slot_view<V>(b: Option<SUNHashMapKeyValue<V>>) -> Slot<V> {
    match b {
        Some(kv) => Some((kv.key@, kv.value)),
        None => None,
    }
}

impl<V> SUNHashMap<V> {
    /// The buckets, in order.
    pub open spec fn slots(&self) -> Seq<Slot<V>> {
        self.buckets@.map_values(|b: Option<SUNHashMapKeyValue<V>>| slot_view(b))
    }

    /// At least one bucket and no more than the allocation limit: every map
    /// that `SUNHashMap_New` returns, and every map the operations leave.
    pub open spec fn well_sized(&self) -> bool {
        1 <= self.buckets@.len() <= SUNHASHMAP_MAX_CAPACITY
    }
}

/// 64-bit FNV-1a over a byte string.
pub open spec fn spec_fnv1a(bytes: Seq<u8>) -> u64
    decreases bytes.len(),
{
    if bytes.len() == 0 {
        HASH_OFFSET_BASIS
    } else {
        (((spec_fnv1a(bytes.drop_last()) ^ (bytes.last() as u64)) as nat * HASH_PRIME as nat)
            % 0x1_0000_0000_0000_0000) as u64
    }
}

/// The home bucket of `key` in a map of `cap` buckets.
pub open spec fn spec_home(key: Seq<char>, cap: int) -> int {
    if cap - 1 == 0 {
        0
    } else {
        (spec_fnv1a(encode_utf8(key)) as int) % (cap - 1)
    }
}

pub proof fn lemma_home_range(key: Seq<char>, cap: int)
    requires
        cap >= 1,
    ensures
        0 <= spec_home(key, cap) < cap,
        cap > 1 ==> spec_home(key, cap) < cap - 1,
{
    if cap - 1 != 0 {
        let x = spec_fnv1a(encode_utf8(key)) as int;
        assert(0 <= x % (cap - 1) < cap - 1) by (nonlinear_arith)
            requires
                x >= 0,
                cap - 1 > 0,
        ;
    }
}

/// Bucket `i` holds `key`.
pub open spec fn has_key_at<V>(s: Seq<Slot<V>>, i: int, key: Seq<char>) -> bool {
    0 <= i < s.len() && s[i] is Some && s[i].unwrap().0 == key
}

/// Some bucket holds `key`.
pub open spec fn has_key<V>(s: Seq<Slot<V>>, key: Seq<char>) -> bool {
    exists|i: int| has_key_at(s, i, key)
}

/// The first bucket at or after `i` that holds `key`, or `s.len()`.
pub open spec fn first_key_from<V>(s: Seq<Slot<V>>, key: Seq<char>, i: int) -> int
    decreases s.len() - i,
{
    if i < 0 || i >= s.len() {
        s.len() as int
    } else if has_key_at(s, i, key) {
        i
    } else {
        first_key_from(s, key, i + 1)
    }
}

/// The first empty bucket at or after `i`, or `s.len()`.
pub open spec fn first_empty_from<V>(s: Seq<Slot<V>>, i: int) -> int
    decreases s.len() - i,
{
    if i < 0 || i >= s.len() {
        s.len() as int
    } else if s[i] is None {
        i
    } else {
        first_empty_from(s, i + 1)
    }
}

/// Where a lookup of `key` lands: the first bucket from the home bucket on
/// that holds `key`, or `s.len()` when none does.
pub open spec fn spec_find<V>(s: Seq<Slot<V>>, key: Seq<char>) -> int {
    first_key_from(s, key, spec_home(key, s.len() as int))
}

/// What a lookup of `key` gives.
pub open spec fn spec_get<V>(s: Seq<Slot<V>>, key: Seq<char>) -> Option<V> {
    let f = spec_find(s, key);
    if f < s.len() {
        Some(s[f].unwrap().1)
    } else {
        None
    }
}

pub proof fn lemma_first_key_from<V>(s: Seq<Slot<V>>, key: Seq<char>, i: int)
    requires
        0 <= i <= s.len(),
    ensures
        i <= first_key_from(s, key, i) <= s.len(),
        first_key_from(s, key, i) < s.len() ==> has_key_at(s, first_key_from(s, key, i), key),
        forall|j: int| i <= j < first_key_from(s, key, i) ==> !has_key_at(s, j, key),
    decreases s.len() - i,
{
    if i < s.len() && !has_key_at(s, i, key) {
        lemma_first_key_from(s, key, i + 1);
    }
}

pub proof fn lemma_first_empty_from<V>(s: Seq<Slot<V>>, i: int)
    requires
        0 <= i <= s.len(),
    ensures
        i <= first_empty_from(s, i) <= s.len(),
        first_empty_from(s, i) < s.len() ==> s[first_empty_from(s, i)] is None,
        forall|j: int| i <= j < first_empty_from(s, i) ==> s[j] is Some,
    decreases s.len() - i,
{
    if i < s.len() && s[i] is Some {
        lemma_first_empty_from(s, i + 1);
    }
}

/// 64-bit FNV-1a of the key's UTF-8 bytes.
pub fn fnv1a_hash(str_: &str) -> (hash: u64)
    ensures
        hash == spec_fnv1a(encode_utf8(str_@)),
{
    let bytes = str_.as_bytes();
    let mut hash: u64 = HASH_OFFSET_BASIS;
    let mut i: usize = 0;
    assert(bytes@.subrange(0, 0) =~= Seq::<u8>::empty());
    while i < bytes.len()
        invariant
            0 <= i <= bytes@.len(),
            bytes@ == encode_utf8(str_@),
            hash == spec_fnv1a(bytes@.subrange(0, i as int)),
        decreases bytes@.len() - i,
    {
        assert(bytes@.subrange(0, i + 1).drop_last() =~= bytes@.subrange(0, i as int));
        hash = (hash ^ (bytes[i] as u64)).wrapping_mul(HASH_PRIME);
        i = i + 1;
    }
    assert(bytes@.subrange(0, bytes@.len() as int) =~= bytes@);
    hash
}

/// The number of buckets.
pub fn SUNHashMap_Capacity<V>(map: &SUNHashMap<V>) -> (cap: i64)
    requires
        map.buckets@.len() <= i64::MAX,
    ensures
        cap == map.buckets@.len(),
{
    map.buckets.len() as i64
}

/// The home bucket of `key`.
pub fn sunHashMapIdxFromKey<V>(map: &SUNHashMap<V>, key: &str) -> (idx: i64)
    requires
        map.well_sized(),
    ensures
        idx == spec_home(key@, map.buckets@.len() as int),
        0 <= idx < map.buckets@.len(),
        map.buckets@.len() > 1 ==> idx < map.buckets@.len() - 1,
{
    let end = SUNHashMap_Capacity(map) - 1;
    if end == 0 {
        end
    } else {
        (fnv1a_hash(key) % (end as u64)) as i64
    }
}

/// A map of `capacity` empty buckets; a capacity that is not positive is
/// out of range, and one beyond the allocation limit cannot be allocated.
pub fn SUNHashMap_New<V>(capacity: i64) -> (res: Result<SUNHashMap<V>, SUNErrCode>)
    ensures
        capacity <= 0 ==> res == Err::<SUNHashMap<V>, SUNErrCode>(SUN_ERR_ARG_OUTOFRANGE),
        capacity > SUNHASHMAP_MAX_CAPACITY ==> res == Err::<SUNHashMap<V>, SUNErrCode>(
            SUN_ERR_MALLOC_FAIL,
        ),
        0 < capacity <= SUNHASHMAP_MAX_CAPACITY ==> (res matches Ok(m) && m.well_sized()
            && m.slots() == Seq::new(capacity as nat, |i: int| None::<(Seq<char>, V)>)),
{
    if capacity <= 0 {
        return Err(SUN_ERR_ARG_OUTOFRANGE);
    }
    if capacity as u64 > SUNHASHMAP_MAX_CAPACITY as u64 {
        return Err(SUN_ERR_MALLOC_FAIL);
    }
    let buckets = empty_buckets(capacity as usize);
    let m = SUNHashMap { buckets };
    assert(m.slots() =~= Seq::new(capacity as nat, |i: int| None::<(Seq<char>, V)>));
    Ok(m)
}

/// `n` empty buckets.
fn empty_buckets<V>(n: usize) -> (b: Vec<Option<SUNHashMapKeyValue<V>>>)
    ensures
        b@.len() == n,
        forall|i: int| 0 <= i < n ==> b@[i] is None,
{
    let mut b: Vec<Option<SUNHashMapKeyValue<V>>> = Vec::with_capacity(n);
    let mut i: usize = 0;
    while i < n
        invariant
            0 <= i <= n,
            b@.len() == i,
            forall|j: int| 0 <= j < i ==> b@[j] is None,
        decreases n - i,
    {
        b.push(None);
        i = i + 1;
    }
    b
}

/// The bucket of `key`: its home bucket when that holds the key, else the
/// first later bucket that does, else the bucket count.
pub fn sunHashMapFindIndex<V>(map: &SUNHashMap<V>, key: &str) -> (idx: i64)
    requires
        map.well_sized(),
    ensures
        idx == spec_find(map.slots(), key@),
{
    let h = sunHashMapIdxFromKey(map, key);
    let n = map.buckets.len();
    let mut i: usize = h as usize;
    proof {
        lemma_first_key_from(map.slots(), key@, h as int);
    }
    while i < n
        invariant
            n == map.buckets@.len(),
            map.well_sized(),
            h <= i <= n,
            first_key_from(map.slots(), key@, i as int) == spec_find(map.slots(), key@),
            h == spec_home(key@, n as int),
        decreases n - i,
    {
        let hit = match &map.buckets[i] {
            Some(kv) => str_eq(kv.key.as_str(), key),
            None => false,
        };
        assert(hit == has_key_at(map.slots(), i as int, key@));
        if hit {
            return i as i64;
        }
        i = i + 1;
    }
    n as i64
}


/// The bucket count after one growth step: the count times one and a half,
/// rounded up.
pub open spec fn grow_capacity(cap: int) -> int {
    cap + (cap + 1) / 2
}

/// How many more buckets the allocation limit leaves room for.
pub open spec fn room(n: int) -> int {
    if n <= SUNHASHMAP_MAX_CAPACITY {
        SUNHASHMAP_MAX_CAPACITY - n
    } else {
        0
    }
}

/// `n` empty buckets.
pub open spec fn empty_slots<V>(n: int) -> Seq<Slot<V>> {
    Seq::new(n as nat, |i: int| None::<(Seq<char>, V)>)
}

/// The buckets and the return code of an insertion of `key` and `value`.
/// The pair goes to the home bucket when that is empty, and to the first
/// empty bucket after it when the home bucket holds another key; a key in
/// its own home bucket is a duplicate. With no empty bucket after the home
/// bucket the map grows, rehashes its entries, and inserts again.
pub open spec fn spec_insert<V>(s: Seq<Slot<V>>, key: Seq<char>, value: V) -> (Seq<Slot<V>>, i64)
    decreases room(s.len() as int), 0int, 0int,
{
    let h = spec_home(key, s.len() as int);
    if s.len() == 0 {
        (s, SUNHASHMAP_ERROR)
    } else if has_key_at(s, h, key) {
        (s, SUNHASHMAP_DUPLICATE)
    } else if s[h] is None {
        (s.update(h, Some((key, value))), 0)
    } else if first_empty_from(s, h + 1) < s.len() {
        (s.update(first_empty_from(s, h + 1), Some((key, value))), 0)
    } else if grow_capacity(s.len() as int) > SUNHASHMAP_MAX_CAPACITY {
        (s, SUN_ERR_MALLOC_FAIL as i64)
    } else {
        let t = spec_rehash(s, empty_slots(grow_capacity(s.len() as int)), 0);
        if t.len() > s.len() {
            spec_insert(t, key, value)
        } else {
            (t, SUNHASHMAP_ERROR)
        }
    }
}

/// The buckets `nb` after inserting the entries of `old` from the last
/// bucket down to bucket `i`, ignoring the return codes.
pub open spec fn spec_rehash<V>(old: Seq<Slot<V>>, nb: Seq<Slot<V>>, i: int) -> Seq<Slot<V>>
    decreases room(nb.len() as int), 1int, old.len() - i,
{
    if i < 0 || i >= old.len() {
        nb
    } else {
        let nb1 = spec_rehash(old, nb, i + 1);
        match old[i] {
            None => nb1,
            Some(kv) => if nb1.len() >= nb.len() {
                spec_insert(nb1, kv.0, kv.1).0
            } else {
                nb1
            },
        }
    }
}

/// Insertion and rehashing keep at least the buckets they start from, and
/// never pass the allocation limit.
pub proof fn lemma_insert_len<V>(s: Seq<Slot<V>>, key: Seq<char>, value: V)
    requires
        1 <= s.len() <= SUNHASHMAP_MAX_CAPACITY,
    ensures
        s.len() <= spec_insert(s, key, value).0.len() <= SUNHASHMAP_MAX_CAPACITY,
    decreases room(s.len() as int), 0int, 0int,
{
    let h = spec_home(key, s.len() as int);
    lemma_home_range(key, s.len() as int);
    lemma_first_empty_from(s, h + 1);
    if has_key_at(s, h, key) {
    } else if s[h] is None {
    } else if first_empty_from(s, h + 1) < s.len() {
    } else if grow_capacity(s.len() as int) > SUNHASHMAP_MAX_CAPACITY {
    } else {
        let g = grow_capacity(s.len() as int);
        lemma_rehash_len(s, empty_slots::<V>(g), 0);
        let t = spec_rehash(s, empty_slots(g), 0);
        assert(t.len() > s.len());
        lemma_insert_len(t, key, value);
        assert(spec_insert(s, key, value) == spec_insert(t, key, value));
    }
}

pub proof fn lemma_rehash_len<V>(old: Seq<Slot<V>>, nb: Seq<Slot<V>>, i: int)
    requires
        1 <= nb.len() <= SUNHASHMAP_MAX_CAPACITY,
    ensures
        nb.len() <= spec_rehash(old, nb, i).len() <= SUNHASHMAP_MAX_CAPACITY,
    decreases room(nb.len() as int), 1int, old.len() - i,
{
    if i < 0 || i >= old.len() {
    } else {
        lemma_rehash_len(old, nb, i + 1);
        let nb1 = spec_rehash(old, nb, i + 1);
        match old[i] {
            None => {},
            Some(kv) => {
                lemma_insert_len(nb1, kv.0, kv.1);
            },
        }
    }
}

/// Grow the map by half (rounded up) and re-insert every entry, from the
/// last bucket down, into the new buckets.
fn sunHashMapResize<V>(map: &mut SUNHashMap<V>) -> (err: SUNErrCode)
    requires
        old(map).well_sized(),
    ensures
        grow_capacity(old(map).buckets@.len() as int) > SUNHASHMAP_MAX_CAPACITY ==> err
            == SUN_ERR_MALLOC_FAIL && final(map).slots() == old(map).slots(),
        grow_capacity(old(map).buckets@.len() as int) <= SUNHASHMAP_MAX_CAPACITY ==> err
            == SUN_SUCCESS && final(map).slots() == spec_rehash(
            old(map).slots(),
            empty_slots(grow_capacity(old(map).buckets@.len() as int)),
            0,
        ),
        final(map).well_sized(),
    decreases room(old(map).buckets@.len() as int), 0int, 0int,
{
    let old_capacity = map.buckets.len();
    let new_capacity = old_capacity + (old_capacity + 1) / 2;
    if new_capacity > SUNHASHMAP_MAX_CAPACITY {
        return SUN_ERR_MALLOC_FAIL;
    }
    let ghost old_slots = map.slots();
    let ghost g = new_capacity as int;
    let mut old_buckets = empty_buckets(new_capacity);
    std::mem::swap(&mut map.buckets, &mut old_buckets);
    assert(map.slots() =~= empty_slots::<V>(g));
    assert(old_buckets@.map_values(|b: Option<SUNHashMapKeyValue<V>>| slot_view(b)) == old_slots);
    let mut i: usize = old_capacity;
    proof {
        lemma_rehash_len(old_slots, empty_slots::<V>(g), i as int);
    }
    while i > 0
        invariant
            0 <= i <= old_capacity,
            old_capacity == old_slots.len(),
            old_buckets@.len() == i,
            forall|j: int| 0 <= j < i ==> slot_view(#[trigger] old_buckets@[j]) == old_slots[j],
            map.slots() == spec_rehash(old_slots, empty_slots::<V>(g), i as int),
            g <= map.buckets@.len() <= SUNHASHMAP_MAX_CAPACITY,
            old_capacity < g <= SUNHASHMAP_MAX_CAPACITY,
            old_capacity == old(map).buckets@.len(),
        decreases i,
    {
        i = i - 1;
        let slot = old_buckets.pop();
        proof {
            lemma_rehash_len(old_slots, empty_slots::<V>(g), i + 1);
        }
        match slot {
            Some(Some(kvp)) => {
                let SUNHashMapKeyValue_ { key, value } = *kvp;
                proof {
                    lemma_insert_len(map.slots(), key@, value);
                }
                SUNHashMap_Insert(map, key.as_str(), value);
            },
            _ => {},
        }
        assert(map.slots() == spec_rehash(old_slots, empty_slots::<V>(g), i as int));
    }
    SUN_SUCCESS
}

/// Insert `key` with `value`: `0` on success, `SUNHASHMAP_DUPLICATE` when
/// the key already sits in its home bucket, the allocation error when the
/// map would have to grow past its limit.
pub fn SUNHashMap_Insert<V>(map: &mut SUNHashMap<V>, key: &str, value: V) -> (r: i64)
    requires
        old(map).well_sized(),
    ensures
        final(map).well_sized(),
        (final(map).slots(), r) == spec_insert(old(map).slots(), key@, value),
    decreases room(old(map).buckets@.len() as int), 1int, 0int,
{
    let ghost s = map.slots();
    let n = map.buckets.len();
    let idx = sunHashMapIdxFromKey(map, key);
    let mut target: usize = idx as usize;
    let occupied = match &map.buckets[target] {
        Some(kv) => {
            if str_eq(kv.key.as_str(), key) {
                return SUNHASHMAP_DUPLICATE;
            }
            true
        },
        None => false,
    };
    if occupied {
        let mut p: usize = target + 1;
        proof {
            lemma_first_empty_from(s, p as int);
        }
        while p < n && map.buckets[p].is_some()
            invariant
                target < p <= n,
                n == map.buckets@.len(),
                s == map.slots(),
                first_empty_from(s, p as int) == first_empty_from(s, target + 1),
            decreases n - p,
        {
            assert(s[p as int] is Some);
            p = p + 1;
        }
        if p == n {
            let err = sunHashMapResize(map);
            if err != SUN_SUCCESS {
                return err as i64;
            }
            proof {
                let g = grow_capacity(s.len() as int);
                lemma_rehash_len(s, empty_slots::<V>(g), 0);
            }
            return SUNHashMap_Insert(map, key, value);
        }
        target = p;
    }
    let kvp = Box::new(SUNHashMapKeyValue_ { key: key.to_owned(), value });
    map.buckets.set(target, Some(kvp));
    assert(map.slots() =~= s.update(target as int, Some((key@, value))));
    0
}


/// Look `key` up: `(0, Some(value))` for the bucket that the probe from
/// the home bucket reaches first, `(SUNHASHMAP_KEYNOTFOUND, None)` when
/// no bucket from the home bucket on holds the key.
pub fn SUNHashMap_GetValue<'a, V>(map: &'a SUNHashMap<V>, key: &str) -> (res: (i64, Option<&'a V>))
    requires
        map.well_sized(),
    ensures
        spec_get(map.slots(), key@) matches Some(v) ==> (res.0 == 0 && res.1 is Some && *res.1->0
            == v),
        spec_get(map.slots(), key@) is None ==> (res.0 == SUNHASHMAP_KEYNOTFOUND && res.1 is None),
{
    let idx = sunHashMapFindIndex(map, key);
    proof {
        lemma_home_range(key@, map.buckets@.len() as int);
        lemma_first_key_from(map.slots(), key@, spec_home(key@, map.buckets@.len() as int));
    }
    if idx as usize >= map.buckets.len() {
        return (SUNHASHMAP_KEYNOTFOUND, None);
    }
    match &map.buckets[idx as usize] {
        Some(kvp) => (0, Some(&kvp.value)),
        None => (SUNHASHMAP_KEYNOTFOUND, None),
    }
}

/// As `SUNHashMap_GetValue`, with write access to the value found.
pub fn SUNHashMap_GetValueMut<'a, V>(map: &'a mut SUNHashMap<V>, key: &str) -> (res: (
    i64,
    Option<&'a mut V>,
))
    requires
        old(map).well_sized(),
    ensures
        spec_get(old(map).slots(), key@) matches Some(v) ==> (res.0 == 0 && res.1 is Some
            && *res.1->0 == v && final(map).slots() == old(map).slots().update(
            spec_find(old(map).slots(), key@),
            Some((key@, *final(res.1->0))),
        )),
        spec_get(old(map).slots(), key@) is None ==> (res.0 == SUNHASHMAP_KEYNOTFOUND && res.1 is None
            && final(map).slots() == old(map).slots()),
{
    let idx = sunHashMapFindIndex(map, key);
    proof {
        lemma_home_range(key@, map.buckets@.len() as int);
        lemma_first_key_from(map.slots(), key@, spec_home(key@, map.buckets@.len() as int));
    }
    if idx as usize >= map.buckets.len() {
        return (SUNHASHMAP_KEYNOTFOUND, None);
    }
    match &mut map.buckets[idx as usize] {
        Some(kvp) => (0, Some(&mut kvp.value)),
        None => (SUNHASHMAP_KEYNOTFOUND, None),
    }
}

/// Remove `key`: empties the bucket a lookup reaches and returns its value,
/// or reports `SUNHASHMAP_KEYNOTFOUND` and leaves the map unchanged.
pub fn SUNHashMap_Remove<V>(map: &mut SUNHashMap<V>, key: &str) -> (res: (i64, Option<V>))
    requires
        old(map).well_sized(),
    ensures
        final(map).well_sized(),
        spec_get(old(map).slots(), key@) matches Some(v) ==> (res == (0i64, Some(v))
            && final(map).slots() == old(map).slots().update(
            spec_find(old(map).slots(), key@),
            None,
        )),
        spec_get(old(map).slots(), key@) is None ==> (res == (SUNHASHMAP_KEYNOTFOUND, None::<V>)
            && final(map).slots() == old(map).slots()),
{
    let ghost s = map.slots();
    let idx = sunHashMapFindIndex(map, key);
    proof {
        lemma_home_range(key@, map.buckets@.len() as int);
        lemma_first_key_from(map.slots(), key@, spec_home(key@, map.buckets@.len() as int));
    }
    if idx as usize >= map.buckets.len() {
        return (SUNHASHMAP_KEYNOTFOUND, None);
    }
    let slot = map.buckets[idx as usize].take();
    assert(map.slots() =~= s.update(idx as int, None));
    match slot {
        Some(kvp) => (0, Some(kvp.value)),
        None => (SUNHASHMAP_KEYNOTFOUND, None),
    }
}

/// The argument the iteration callback receives for a bucket.
pub open spec fn bucket_arg<V>(b: &Option<SUNHashMapKeyValue<V>>) -> Option<&SUNHashMapKeyValue<V>> {
    match b {
        Some(kv) => Some(kv),
        None => None,
    }
}

/// What an iteration from `start` may return given the callback's answers:
/// the bucket count, every callback from `start` on having asked to keep
/// looking; or the first answer other than `SUNHASHMAP_ERROR`, at a bucket
/// before which every callback asked to keep looking.
pub open spec fn iterate_outcome<V, F: Fn(i64, Option<&SUNHashMapKeyValue<V>>) -> i64>(
    bs: Seq<Option<SUNHashMapKeyValue<V>>>,
    start: i64,
    yieldfn: F,
    r: i64,
) -> bool {
    ||| (r == bs.len() && forall|j: int|
        start <= j < bs.len() ==> yieldfn.ensures((j as i64, bucket_arg(&#[trigger] bs[j])), SUNHASHMAP_ERROR))
    ||| (exists|i: int|
        start <= i < bs.len() && r != SUNHASHMAP_ERROR && yieldfn.ensures((i as i64, bucket_arg(&bs[i])), r)
            && forall|j: int|
            start <= j < i ==> yieldfn.ensures((j as i64, bucket_arg(&#[trigger] bs[j])), SUNHASHMAP_ERROR))
}

/// Call `yieldfn` on the buckets from `start` on, in order, until it
/// returns something other than `SUNHASHMAP_ERROR`, and return that; when
/// every call asks to keep looking, return the bucket count.
pub fn SUNHashMap_Iterate<V, F: Fn(i64, Option<&SUNHashMapKeyValue<V>>) -> i64>(
    map: &SUNHashMap<V>,
    start: i64,
    yieldfn: F,
) -> (r: i64)
    requires
        map.well_sized(),
        0 <= start,
        forall|i: i64, b: Option<&SUNHashMapKeyValue<V>>| yieldfn.requires((i, b)),
    ensures
        iterate_outcome(map.buckets@, start, yieldfn, r),
{
    let n = map.buckets.len();
    let mut i: usize = if start as u64 > n as u64 {
        n
    } else {
        start as usize
    };
    while i < n
        invariant
            n == map.buckets@.len(),
            map.well_sized(),
            start <= i <= n || (start >= n && i == n),
            forall|i: i64, b: Option<&SUNHashMapKeyValue<V>>| yieldfn.requires((i, b)),
            forall|j: int|
                start <= j < i ==> yieldfn.ensures(
                    (j as i64, bucket_arg(&#[trigger] map.buckets@[j])),
                    SUNHASHMAP_ERROR,
                ),
        decreases n - i,
    {
        let arg = match &map.buckets[i] {
            Some(kv) => Some(kv),
            None => None,
        };
        assert(arg == bucket_arg(&map.buckets@[i as int]));
        let retval = yieldfn(i as i64, arg);
        if retval != SUNHASHMAP_ERROR {
            return retval;
        }
        i = i + 1;
    }
    n as i64
}


/// What an iteration answers when the callback's answer is the function
/// `g` of its inputs: `g` at the first bucket from `i` on where it is not
/// `SUNHASHMAP_ERROR`, or the bucket count when there is none.
pub open spec fn first_answer<V>(
    bs: Seq<Option<SUNHashMapKeyValue<V>>>,
    i: int,
    g: spec_fn(i64, Option<&SUNHashMapKeyValue<V>>) -> i64,
) -> int
    decreases bs.len() - i,
{
    if i >= bs.len() {
        bs.len() as int
    } else if g(i as i64, bucket_arg(&bs[i])) != SUNHASHMAP_ERROR {
        g(i as i64, bucket_arg(&bs[i])) as int
    } else {
        first_answer(bs, i + 1, g)
    }
}

proof fn lemma_first_answer_at<V>(
    bs: Seq<Option<SUNHashMapKeyValue<V>>>,
    s: int,
    k: int,
    g: spec_fn(i64, Option<&SUNHashMapKeyValue<V>>) -> i64,
)
    requires
        s <= k <= bs.len(),
        forall|j: int| s <= j < k ==> g(j as i64, bucket_arg(&#[trigger] bs[j])) == SUNHASHMAP_ERROR,
        k < bs.len() ==> g(k as i64, bucket_arg(&bs[k])) != SUNHASHMAP_ERROR,
    ensures
        first_answer(bs, s, g) == if k == bs.len() {
            bs.len() as int
        } else {
            g(k as i64, bucket_arg(&bs[k])) as int
        },
    decreases k - s,
{
    if s < k {
        assert(g(s as i64, bucket_arg(&bs[s])) == SUNHASHMAP_ERROR);
        lemma_first_answer_at(bs, s + 1, k, g);
    }
}

/// With a callback whose answer is the function `g` of its inputs, an
/// iteration from `start` returns `g` at the least bucket from `start` on
/// where `g` is not `SUNHASHMAP_ERROR`, or the bucket count when there is
/// none.
pub proof fn law_iterate_first_answer<V, F: Fn(i64, Option<&SUNHashMapKeyValue<V>>) -> i64>(
    map: &SUNHashMap<V>,
    start: i64,
    yieldfn: F,
    g: spec_fn(i64, Option<&SUNHashMapKeyValue<V>>) -> i64,
    r: i64,
)
    requires
        0 <= start,
        forall|i: i64, b: Option<&SUNHashMapKeyValue<V>>, x: i64| #[trigger] yieldfn.ensures((i, b), x) ==> x == g(i, b),
        iterate_outcome(map.buckets@, start, yieldfn, r),
    ensures
        r == first_answer(map.buckets@, start as int, g),
{
    let bs = map.buckets@;
    if r == bs.len() && forall|j: int|
        start <= j < bs.len() ==> yieldfn.ensures((j as i64, bucket_arg(&#[trigger] bs[j])), SUNHASHMAP_ERROR) {
        if start <= bs.len() {
            assert forall|j: int| start <= j < bs.len() implies g(j as i64, bucket_arg(&#[trigger] bs[j])) == SUNHASHMAP_ERROR by {
                assert(yieldfn.ensures((j as i64, bucket_arg(&bs[j])), SUNHASHMAP_ERROR));
            }
            lemma_first_answer_at(bs, start as int, bs.len() as int, g);
        }
    } else {
        let i = choose|i: int|
            start <= i < bs.len() && r != SUNHASHMAP_ERROR && yieldfn.ensures((i as i64, bucket_arg(&bs[i])), r)
                && forall|j: int|
                start <= j < i ==> yieldfn.ensures((j as i64, bucket_arg(&#[trigger] bs[j])), SUNHASHMAP_ERROR);
        assert forall|j: int| start <= j < i implies g(j as i64, bucket_arg(&#[trigger] bs[j])) == SUNHASHMAP_ERROR by {
            assert(yieldfn.ensures((j as i64, bucket_arg(&bs[j])), SUNHASHMAP_ERROR));
        }
        lemma_first_answer_at(bs, start as int, i, g);
    }
}


/// The key listing of the buckets in order: each occupied bucket's key
/// followed by a comma and a space.
pub open spec fn keys_listing<V>(s: Seq<Slot<V>>) -> Seq<char>
    decreases s.len(),
{
    if s.len() == 0 {
        Seq::empty()
    } else {
        keys_listing(s.drop_last()) + match s.last() {
            Some((k, _)) => k + ", "@,
            None => Seq::empty(),
        }
    }
}

/// The text `SUNHashMap_PrintKeys` writes: the key listing in square
/// brackets, then a newline.
pub open spec fn keys_text<V>(s: Seq<Slot<V>>) -> Seq<char> {
    "["@ + keys_listing(s) + "]\n"@
}

/// The room the key listing gives the buckets `s`: each occupied bucket
/// takes its key's length and two more for the `", "` after it.
pub open spec fn listed_len<V>(s: Seq<Slot<V>>) -> int
    decreases s.len(),
{
    if s.len() == 0 {
        0
    } else {
        listed_len(s.drop_last()) + match s.last() {
            Some((k, _)) => k.len() + 2,
            None => 0,
        }
    }
}

proof fn lemma_listing_len<V>(s: Seq<Slot<V>>)
    ensures
        keys_listing(s).len() == listed_len(s),
    decreases s.len(),
{
    reveal_strlit(", ");
    if s.len() > 0 {
        lemma_listing_len(s.drop_last());
    }
}

proof fn lemma_listing_prefix<V>(s: Seq<Slot<V>>, a: int)
    requires
        0 <= a <= s.len(),
    ensures
        keys_listing(s.take(a)).len() <= keys_listing(s).len(),
        keys_listing(s).subrange(0, keys_listing(s.take(a)).len() as int) == keys_listing(s.take(a)),
    decreases s.len(),
{
    if a == s.len() {
        assert(s.take(a) =~= s);
        assert(keys_listing(s).subrange(0, keys_listing(s).len() as int) =~= keys_listing(s));
    } else {
        let t = s.drop_last();
        assert(s.take(a) =~= t.take(a));
        lemma_listing_prefix(t, a);
        let p = keys_listing(t.take(a));
        assert(keys_listing(s) == keys_listing(t) + match s.last() {
            Some((k, _)) => k + ", "@,
            None => Seq::<char>::empty(),
        });
        assert(keys_listing(s).subrange(0, p.len() as int) =~= keys_listing(t).subrange(0, p.len() as int));
    }
}

/// The key listing names every stored key, in bucket order and nothing
/// else: the text is `[`, then for each occupied bucket its key and `", "`,
/// then `]` and a newline. Its length is three more than the room the
/// occupied buckets take, and bucket `i`'s key and `", "` stand right after
/// the room of the buckets before it.
pub proof fn law_keys_text_lists_every_key<V>(s: Seq<Slot<V>>, i: int)
    ensures
        keys_text(s).len() == listed_len(s) + 3,
        keys_text(s)[0] == '[',
        keys_text(s).subrange(keys_text(s).len() - 2, keys_text(s).len() as int) == "]\n"@,
        0 <= i < s.len() && s[i] is Some ==> ({
            let k = s[i].unwrap().0;
            let p = 1 + listed_len(s.take(i));
            keys_text(s).subrange(p, p + k.len() + 2) == k + ", "@
        }),
{
    reveal_strlit("[");
    reveal_strlit("]\n");
    reveal_strlit(", ");
    lemma_listing_len(s);
    let l = keys_listing(s);
    let txt = keys_text(s);
    assert(txt.subrange(txt.len() - 2, txt.len() as int) =~= "]\n"@);
    if 0 <= i < s.len() && s[i] is Some {
        let k = s[i].unwrap().0;
        let u = s.take(i + 1);
        assert(u.drop_last() =~= s.take(i));
        assert(u.last() == s[i]);
        assert(keys_listing(u) == keys_listing(s.take(i)) + (k + ", "@));
        lemma_listing_len(s.take(i));
        lemma_listing_prefix(s, i + 1);
        let p = listed_len(s.take(i));
        assert(l.subrange(0, keys_listing(u).len() as int) == keys_listing(u));
        assert(txt.subrange(1 + p, 1 + p + k.len() + 2) =~= l.subrange(p, p + k.len() + 2));
        assert(l.subrange(p, p + k.len() + 2) =~= keys_listing(u).subrange(p, p + k.len() + 2));
        assert(keys_listing(u).subrange(p, p + k.len() + 2) =~= k + ", "@);
    }
}

/// The keys of the occupied buckets, in bucket order, as
/// `[k1, k2, ]` followed by a newline.
pub fn SUNHashMap_KeysText<V>(map: &SUNHashMap<V>) -> (text: String)
    ensures
        text@ == keys_text(map.slots()),
{
    let mut s = String::new();
    s.append("[");
    let ghost start = s@;
    let n = map.buckets.len();
    let mut i: usize = 0;
    while i < n
        invariant
            n == map.buckets@.len(),
            0 <= i <= n,
            s@ == start + keys_listing(map.slots().subrange(0, i as int)),
        decreases n - i,
    {
        let ghost before = s@;
        match &map.buckets[i] {
            Some(kv) => {
                s.append(kv.key.as_str());
                s.append(", ");
            },
            None => {},
        }
        proof {
            let sl = map.slots().subrange(0, i + 1);
            assert(sl.drop_last() =~= map.slots().subrange(0, i as int));
            assert(sl.last() == slot_view(map.buckets@[i as int]));
            reveal_strlit(", ");
        }
        i = i + 1;
    }
    s.append("]\n");
    proof {
        reveal_strlit("[");
        reveal_strlit("]\n");
        assert(map.slots().subrange(0, n as int) =~= map.slots());
    }
    assert(s@ =~= keys_text(map.slots()));
    s
}

/// Write the map's keys, in bucket order, to `file` as `[k1, k2, ]` and a
/// newline; `write` performs the output.
pub fn SUNHashMap_PrintKeys<V, W: Fn(SUNFile, &str)>(map: &SUNHashMap<V>, file: SUNFile, write: W)
    requires
        forall|f: SUNFile, t: &str| write.requires((f, t)),
    ensures
        exists|t: &str| t@ == keys_text(map.slots()) && write.ensures((file, t), ()),
{
    let text = SUNHashMap_KeysText(map);
    write(file, text.as_str());
}

} // verus!
