use vstd::prelude::*;
use crate::sundials_hashmap::{SUNHashMap, SUNHashMapKeyValue_};
use crate::sundials_types::{SUNErrCode, usize_int};

verus! {

/// What the sorting comparator receives for a bucket.
pub open spec fn entry_ref<V>(b: &Option<Box<SUNHashMapKeyValue_<V>>>) -> Option<
    &SUNHashMapKeyValue_<V>,
> {
    match b {
        Some(bx) => Some(&**bx),
        None => None,
    }
}

/// The buckets as the comparator sees them, in bucket order.
pub open spec fn entry_refs<'a, V>(map: &'a SUNHashMap<V>) -> Seq<Option<&'a SUNHashMapKeyValue_<V>>> {
    Seq::new(map.buckets@.len(), |i: int| entry_ref(&map.buckets@[i]))
}

/// `l` may stand before `r`: the comparator was seen to order `l` no later
/// than `r`, or to order `r` after `l`.
pub open spec fn ordered_pair<V, F: Fn(Option<&SUNHashMapKeyValue_<V>>, Option<&SUNHashMapKeyValue_<V>>) -> std::cmp::Ordering>(
    compar: F,
    l: Option<&SUNHashMapKeyValue_<V>>,
    r: Option<&SUNHashMapKeyValue_<V>>,
) -> bool {
    ||| exists|o: std::cmp::Ordering| compar.ensures((l, r), o) && o != std::cmp::Ordering::Greater
    ||| compar.ensures((r, l), std::cmp::Ordering::Greater)
}

/// The buckets, empty ones included, sorted with `compar`: a permutation
/// of the buckets in which each neighbour pair is ordered by the answers
/// the comparator gave.
pub fn SUNHashMap_Sort<'a, V, F: Fn(Option<&SUNHashMapKeyValue_<V>>, Option<&SUNHashMapKeyValue_<V>>) -> std::cmp::Ordering>(
    map: &'a SUNHashMap<V>,
    compar: F,
) -> (res: Result<Vec<Option<&'a SUNHashMapKeyValue_<V>>>, SUNErrCode>)
    requires
        forall|l: Option<&SUNHashMapKeyValue_<V>>, r: Option<&SUNHashMapKeyValue_<V>>|
            compar.requires((l, r)),
    ensures
        res matches Ok(v) && v@.len() == map.buckets@.len() && v@.to_multiset()
            == entry_refs(map).to_multiset() && forall|k: int|
            0 <= k < v@.len() - 1 ==> ordered_pair(compar, #[trigger] v@[k], v@[k + 1]),
{
    let n = map.buckets.len();
    let ghost orig = entry_refs(map);
    let mut sorted: Vec<Option<&'a SUNHashMapKeyValue_<V>>> = Vec::with_capacity(n);
    let mut i: usize = 0;
    assert(orig.take(0) =~= Seq::<Option<&'a SUNHashMapKeyValue_<V>>>::empty());
    while i < n
        invariant
            n == map.buckets@.len(),
            orig == entry_refs(map),
            0 <= i <= n,
            sorted@.len() == i,
            sorted@.to_multiset() == orig.take(usize_int(i)).to_multiset(),
            forall|k: int|
                0 <= k < sorted@.len() - 1 ==> ordered_pair(compar, #[trigger] sorted@[k], sorted@[k + 1]),
            forall|l: Option<&SUNHashMapKeyValue_<V>>, r: Option<&SUNHashMapKeyValue_<V>>|
                compar.requires((l, r)),
        decreases n - i,
    {
        let x: Option<&'a SUNHashMapKeyValue_<V>> = match &map.buckets[i] {
            Some(bx) => Some(&**bx),
            None => None,
        };
        assert(x == orig[usize_int(i)]);
        let mut j: usize = sorted.len();
        let mut done = false;
        while j > 0 && !done
            invariant
                0 <= j <= sorted@.len(),
                sorted@.len() == i,
                done && j > 0 ==> ordered_pair(compar, sorted@[j - 1], x),
                j < sorted@.len() ==> compar.ensures((sorted@[usize_int(j)], x), std::cmp::Ordering::Greater),
                forall|l: Option<&SUNHashMapKeyValue_<V>>, r: Option<&SUNHashMapKeyValue_<V>>|
                    compar.requires((l, r)),
            decreases 2 * usize_int(j) + if done { 0int } else { 1int },
        {
            let o = compar(sorted[j - 1], x);
            match o {
                std::cmp::Ordering::Greater => {
                    j = j - 1;
                },
                _ => {
                    done = true;
                },
            }
        }
        let ghost before = sorted@;
        sorted.insert(j, x);
        proof {
            vstd::seq_lib::to_multiset_insert(before, usize_int(j), x);
            vstd::seq_lib::to_multiset_build(orig.take(usize_int(i)), x);
            assert(orig.take(usize_int(i) + 1) =~= orig.take(usize_int(i)).push(x));
            assert forall|k: int| 0 <= k < sorted@.len() - 1 implies ordered_pair(
                compar,
                #[trigger] sorted@[k],
                sorted@[k + 1],
            ) by {
                if k < j - 1 {
                    assert(sorted@[k] == before[k] && sorted@[k + 1] == before[k + 1]);
                } else if k == j - 1 {
                    assert(sorted@[k] == before[k] && sorted@[k + 1] == x);
                    if !done {
                        assert(j == 0);
                    }
                } else if k == j {
                    assert(sorted@[k] == x && sorted@[k + 1] == before[k]);
                } else {
                    assert(sorted@[k] == before[k - 1] && sorted@[k + 1] == before[k]);
                }
            }
        }
        i = i + 1;
    }
    assert(orig.take(usize_int(n)) =~= orig);
    Ok(sorted)
}

/// Each neighbour pair is in order under `le`, when the comparator answers
/// by a total order `le`: everything ordered neighbour by neighbour.
proof fn lemma_pair_le<X, F: Fn(X, X) -> std::cmp::Ordering>(compar: F, le: spec_fn(X, X) -> bool, l: X, r: X)
    requires
        forall|a: X, b: X, o: std::cmp::Ordering| #[trigger] compar.ensures((a, b), o) ==> (o
            == std::cmp::Ordering::Greater <==> !le(a, b)),
        forall|a: X, b: X| #[trigger] le(a, b) || le(b, a),
        (exists|o: std::cmp::Ordering| compar.ensures((l, r), o) && o != std::cmp::Ordering::Greater)
            || compar.ensures((r, l), std::cmp::Ordering::Greater),
    ensures
        le(l, r),
{
    if exists|o: std::cmp::Ordering| compar.ensures((l, r), o) && o != std::cmp::Ordering::Greater {
        let o = choose|o: std::cmp::Ordering| compar.ensures((l, r), o) && o != std::cmp::Ordering::Greater;
        assert(compar.ensures((l, r), o));
    } else {
        assert(compar.ensures((r, l), std::cmp::Ordering::Greater));
        assert(!le(r, l));
        assert(le(l, r) || le(r, l));
    }
}

/// When the comparator answers by a total order `le` (it answers
/// `Greater` exactly when its first argument is not `le` its second), a
/// sorted result is in order throughout: every earlier entry is `le` every
/// later one, and the comparator never answers `Greater` on such a pair.
pub proof fn law_sorted_is_ordered<'a, V, F: Fn(Option<&SUNHashMapKeyValue_<V>>, Option<&SUNHashMapKeyValue_<V>>) -> std::cmp::Ordering>(
    map: &'a SUNHashMap<V>,
    compar: F,
    le: spec_fn(Option<&'a SUNHashMapKeyValue_<V>>, Option<&'a SUNHashMapKeyValue_<V>>) -> bool,
    sorted: Seq<Option<&'a SUNHashMapKeyValue_<V>>>,
)
    requires
        forall|a: Option<&SUNHashMapKeyValue_<V>>, b: Option<&SUNHashMapKeyValue_<V>>, o: std::cmp::Ordering|
            #[trigger] compar.ensures((a, b), o) ==> (o == std::cmp::Ordering::Greater <==> !le(a, b)),
        forall|a: Option<&SUNHashMapKeyValue_<V>>, b: Option<&SUNHashMapKeyValue_<V>>| #[trigger] le(a, b) || le(b, a),
        forall|a: Option<&SUNHashMapKeyValue_<V>>, b: Option<&SUNHashMapKeyValue_<V>>, c: Option<&SUNHashMapKeyValue_<V>>|
            #[trigger] le(a, b) && #[trigger] le(b, c) ==> le(a, c),
        forall|k: int| 0 <= k < sorted.len() - 1 ==> ordered_pair(compar, #[trigger] sorted[k], sorted[k + 1]),
    ensures
        forall|i: int, j: int| 0 <= i < j < sorted.len() ==> le(#[trigger] sorted[i], #[trigger] sorted[j]),
        forall|i: int, j: int, o: std::cmp::Ordering|
            0 <= i < j < sorted.len() && #[trigger] compar.ensures((sorted[i], sorted[j]), o) ==> o
                != std::cmp::Ordering::Greater,
{
    assert forall|i: int, j: int| 0 <= i < j < sorted.len() implies le(#[trigger] sorted[i], #[trigger] sorted[j]) by {
        lemma_chain_le(compar, le, sorted, i, j);
    }
}

proof fn lemma_chain_le<'a, V, F: Fn(Option<&SUNHashMapKeyValue_<V>>, Option<&SUNHashMapKeyValue_<V>>) -> std::cmp::Ordering>(
    compar: F,
    le: spec_fn(Option<&'a SUNHashMapKeyValue_<V>>, Option<&'a SUNHashMapKeyValue_<V>>) -> bool,
    sorted: Seq<Option<&'a SUNHashMapKeyValue_<V>>>,
    i: int,
    j: int,
)
    requires
        0 <= i < j < sorted.len(),
        forall|a: Option<&SUNHashMapKeyValue_<V>>, b: Option<&SUNHashMapKeyValue_<V>>, o: std::cmp::Ordering|
            #[trigger] compar.ensures((a, b), o) ==> (o == std::cmp::Ordering::Greater <==> !le(a, b)),
        forall|a: Option<&SUNHashMapKeyValue_<V>>, b: Option<&SUNHashMapKeyValue_<V>>| #[trigger] le(a, b) || le(b, a),
        forall|a: Option<&SUNHashMapKeyValue_<V>>, b: Option<&SUNHashMapKeyValue_<V>>, c: Option<&SUNHashMapKeyValue_<V>>|
            #[trigger] le(a, b) && #[trigger] le(b, c) ==> le(a, c),
        forall|k: int| 0 <= k < sorted.len() - 1 ==> ordered_pair(compar, #[trigger] sorted[k], sorted[k + 1]),
    ensures
        le(sorted[i], sorted[j]),
    decreases j - i,
{
    let k = j - 1;
    assert(ordered_pair(compar, sorted[k], sorted[k + 1]));
    lemma_pair_le(compar, le, sorted[k], sorted[k + 1]);
    if i < j - 1 {
        lemma_chain_le(compar, le, sorted, i, j - 1);
    }
}

} // verus!
