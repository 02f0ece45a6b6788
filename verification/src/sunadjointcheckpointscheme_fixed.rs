use vstd::prelude::*;
use crate::sundials_errors::{SUN_ERR_CHECKPOINT_NOT_FOUND, SUN_SUCCESS};
use crate::sundials_hashmap_laws::{
    holds_value, insert_within_limit, law_get_is_lookup, law_insert_fresh, lemma_insert_values, lookup,
    unique_values, wf_slots,
};
use crate::sundials_hashmap::{
    has_key, has_key_at, SUNHashMap, SUNHashMap_GetValue, SUNHashMap_Insert, SUNHashMap_New, SUNHashMap_Remove,
    SUNHASHMAP_MAX_CAPACITY, Slot, empty_slots, lemma_first_key_from, lemma_home_range, slot_view, spec_find,
    spec_get, spec_home, spec_insert,
};
use crate::sundials_memory::{
    SUNMemory, SUNMemoryHelper_AllocStrided_Sys, SUNMemoryHelper_Content_Sys_,
    SUNMemoryHelper_Dealloc_Sys, SUNMemoryType,
};
use crate::sundials_types::{SUNDataIOMode, SUNErrCode, SUNFALSE, SUNTRUE, sunbooleantype, suncountertype};
use crate::sundials_utils::{int_decimal, sunSignedToString};

verus! {

/// The bytes of one stored solution are laid out as the time followed by
/// the vector's entries; each takes this many bytes.
pub const SUN_REAL_BYTES: usize = 8;

/// A step's list node in the checkpoint tree: the solutions stored for the
/// step and its stages, in insertion order. A node is `destroyed` once its
/// content has been released, which happens when it is explicitly
/// destroyed or when nothing refers to it any more.
pub struct SUNCheckpointStepNode {
    pub stages: Vec<SUNMemory>,
    pub destroyed: bool,
}

/// The state of a fixed-interval checkpointing scheme. The checkpoint tree
/// is an object node (`root_node`, absent when its table could not be
/// made) that names step list nodes by the decimal text of their step
/// number; the list nodes live in `step_nodes`, and the root table, the
/// current insert node and the current load node refer to them by index.
pub struct SUNAdjointCheckpointScheme_Fixed_Content_ {
    pub backup_interval: suncountertype,
    pub interval: suncountertype,
    pub step_num_of_current_insert: suncountertype,
    pub step_num_of_current_load: suncountertype,
    pub root_node: Option<SUNHashMap<usize>>,
    pub num_named_children: i64,
    pub step_nodes: Vec<SUNCheckpointStepNode>,
    pub current_insert_step_node: Option<usize>,
    pub current_load_step_node: Option<usize>,
    pub io_mode: SUNDataIOMode,
    pub keep: sunbooleantype,
}

pub type SUNAdjointCheckpointScheme_Fixed_Content = SUNAdjointCheckpointScheme_Fixed_Content_;

pub type MemHelper = SUNMemoryHelper_Content_Sys_;

/// A step node as the contracts see it: the bytes of each stored solution,
/// and whether the node is destroyed.
pub type NodeModel = (Seq<Seq<u8>>, bool);

/// The scheme as the contracts see it.
pub struct FixedModel {
    pub backup_interval: i64,
    pub interval: i64,
    pub insert_step: i64,
    pub load_step: i64,
    pub root: Option<Seq<Slot<usize>>>,
    pub count: i64,
    pub nodes: Seq<NodeModel>,
    pub cur_insert: Option<usize>,
    pub cur_load: Option<usize>,
    pub keep: bool,
}

pub open spec fn node_model(n: SUNCheckpointStepNode) -> NodeModel {
    (n.stages@.map_values(|l: SUNMemory| l.data@), n.destroyed)
}

/// A stored solution as the scheme allocates it: owned host memory whose
/// byte count is its length, with the stride of one real number.
pub open spec fn leaf_ok(l: SUNMemory) -> bool {
    &&& l.own
    &&& l.type_ == SUNMemoryType::SUNMEMTYPE_HOST
    &&& l.bytes == l.data@.len()
    &&& l.stride == SUN_REAL_BYTES
}

/// Some bucket of `s` holds the node index `i`.
pub open spec fn holds_index(s: Seq<Slot<usize>>, i: usize) -> bool {
    exists|j: int| 0 <= j < s.len() && s[j] is Some && #[trigger] s[j].unwrap().1 == i
}

/// The root table refers to node `i`.
pub open spec fn in_root(m: FixedModel, i: usize) -> bool {
    m.root matches Some(s) && holds_index(s, i)
}

/// Something refers to node `i`: the root table, or the current insert or
/// load node.
pub open spec fn referenced(m: FixedModel, i: usize) -> bool {
    in_root(m, i) || m.cur_insert == Some(i) || m.cur_load == Some(i)
}

/// The key under which the root table names the node of step `step`.
pub open spec fn step_key(step: i64) -> Seq<char> {
    int_decimal(step as int)
}

impl SUNAdjointCheckpointScheme_Fixed_Content_ {
    pub open spec fn model(&self) -> FixedModel {
        FixedModel {
            backup_interval: self.backup_interval,
            interval: self.interval,
            insert_step: self.step_num_of_current_insert,
            load_step: self.step_num_of_current_load,
            root: match self.root_node {
                Some(r) => Some(r.slots()),
                None => None,
            },
            count: self.num_named_children,
            nodes: self.step_nodes@.map_values(|n: SUNCheckpointStepNode| node_model(n)),
            cur_insert: self.current_insert_step_node,
            cur_load: self.current_load_step_node,
            keep: self.keep,
        }
    }

    /// The tree's bookkeeping is consistent: the root table is well sized
    /// and refers only to live nodes, each at most once; the counter is
    /// zero without a table; every node that nothing refers to is
    /// destroyed, and destroyed nodes hold nothing; every stored solution
    /// is laid out as allocated.
    pub open spec fn wf(&self) -> bool {
        let m = self.model();
        &&& self.root_node matches Some(r) ==> r.well_sized()
        &&& self.root_node is None ==> self.num_named_children == 0
        &&& self.num_named_children >= 0
        &&& m.root matches Some(s) ==> root_refs_ok(s, m.nodes)
        &&& m.cur_insert matches Some(i) ==> i < m.nodes.len()
        &&& m.cur_load matches Some(i) ==> i < m.nodes.len()
        &&& forall|i: usize| i < m.nodes.len() && !referenced(m, i) ==> #[trigger] m.nodes[i as int].1
        &&& forall|i: int| 0 <= i < m.nodes.len() && #[trigger] m.nodes[i].1 ==> m.nodes[i].0.len() == 0
        &&& forall|i: int, k: int|
            0 <= i < self.step_nodes@.len() && 0 <= k < self.step_nodes@[i].stages@.len()
                ==> leaf_ok(#[trigger] self.step_nodes@[i].stages@[k])
    }
}

/// Every entry of the root table names a live node, and no node twice.
pub open spec fn root_refs_ok(s: Seq<Slot<usize>>, nodes: Seq<NodeModel>) -> bool {
    &&& forall|j: int|
        0 <= j < s.len() && #[trigger] s[j] is Some ==> s[j].unwrap().1 < nodes.len()
            && !nodes[s[j].unwrap().1 as int].1
    &&& forall|j: int, k: int|
        0 <= j < s.len() && 0 <= k < s.len() && #[trigger] s[j] is Some && #[trigger] s[k] is Some
            && s[j].unwrap().1 == s[k].unwrap().1 ==> j == k
}

/// The state right after creation.
pub open spec fn created_model(interval: i64, estimate: i64, keep: bool) -> FixedModel {
    FixedModel {
        backup_interval: interval,
        interval: interval,
        insert_step: -2i64,
        load_step: -2i64,
        root: if 0 < estimate <= SUNHASHMAP_MAX_CAPACITY {
            Some(empty_slots::<usize>(estimate as int))
        } else {
            None
        },
        count: 0,
        nodes: Seq::empty(),
        cur_insert: None,
        cur_load: None,
        keep: keep,
    }
}

/// A fixed-interval checkpointing scheme that saves every `interval`-th
/// step, with a root table sized for `estimate` steps (none when that size
/// is out of range), keeping loaded checkpoints when `keep` is set.
pub fn SUNAdjointCheckpointScheme_Create_Fixed(
    io_mode: SUNDataIOMode,
    interval: suncountertype,
    estimate: suncountertype,
    keep: sunbooleantype,
) -> (c: SUNAdjointCheckpointScheme_Fixed_Content)
    ensures
        c.wf(),
        c.model() == created_model(interval, estimate, keep),
        c.io_mode == io_mode,
{
    let root = match SUNHashMap_New::<usize>(estimate) {
        Ok(m) => Some(m),
        Err(_) => None,
    };
    let c = SUNAdjointCheckpointScheme_Fixed_Content_ {
        backup_interval: interval,
        interval,
        step_num_of_current_insert: -2,
        step_num_of_current_load: -2,
        root_node: root,
        num_named_children: 0,
        step_nodes: Vec::new(),
        current_insert_step_node: None,
        current_load_step_node: None,
        io_mode,
        keep,
    };
    assert(c.model().nodes =~= Seq::<NodeModel>::empty());
    proof {
        if 0 < estimate <= SUNHASHMAP_MAX_CAPACITY {
            assert(c.model().root.unwrap() =~= empty_slots::<usize>(estimate as int));
        }
    }
    c
}

/// The magnitude of `x`.
pub open spec fn magnitude(x: i64) -> nat {
    if x < 0 {
        (-(x as int)) as nat
    } else {
        x as nat
    }
}

fn magnitude_u64(x: i64) -> (m: u64)
    ensures
        m as nat == magnitude(x),
{
    if x < 0 {
        ((-(x + 1)) as u64) + 1
    } else {
        x as u64
    }
}

/// Whether step `step_num` is saved: exactly when the interval divides it
/// (the stage and the time do not matter).
pub fn SUNAdjointCheckpointScheme_NeedsSaving_Fixed(
    c: &SUNAdjointCheckpointScheme_Fixed_Content,
    step_num: suncountertype,
    stage_num: suncountertype,
    yes_or_no: &mut sunbooleantype,
) -> (err: SUNErrCode)
    requires
        c.interval != 0,
        !(step_num == i64::MIN && c.interval == -1),
    ensures
        err == SUN_SUCCESS,
        *final(yes_or_no) == (magnitude(step_num) % magnitude(c.interval) == 0),
{
    let a = magnitude_u64(step_num);
    let d = magnitude_u64(c.interval);
    if a % d == 0 {
        *yes_or_no = SUNTRUE;
    } else {
        *yes_or_no = SUNFALSE;
    }
    SUN_SUCCESS
}

/// The scheme after dense checkpointing is turned on (every step saved,
/// the interval remembered) or off (the remembered interval restored).
pub open spec fn enable_dense_model(m: FixedModel, on: bool) -> FixedModel {
    if on {
        FixedModel { backup_interval: m.interval, interval: 1, ..m }
    } else {
        FixedModel { interval: m.backup_interval, ..m }
    }
}

/// Turn dense checkpointing on (save every step, remembering the interval)
/// or off (restore the remembered interval).
pub fn SUNAdjointCheckpointScheme_EnableDense_Fixed(
    c: &mut SUNAdjointCheckpointScheme_Fixed_Content,
    on_or_off: sunbooleantype,
) -> (err: SUNErrCode)
    ensures
        err == SUN_SUCCESS,
        final(c).model() == enable_dense_model(old(c).model(), on_or_off),
        final(c).io_mode == old(c).io_mode,
        old(c).wf() ==> final(c).wf(),
{
    if on_or_off {
        c.backup_interval = c.interval;
        c.interval = 1;
    } else {
        c.interval = c.backup_interval;
    }
    proof {
        assert(c.model().nodes == old(c).model().nodes);
        assert(forall|i: usize| referenced(c.model(), i) == referenced(old(c).model(), i));
    }
    SUN_SUCCESS
}

/// The helper after releasing one stored solution: a non-empty buffer
/// counts as a deallocation and its bytes leave the total.
pub open spec fn release_leaf(h: MemHelper, d: Seq<u8>) -> MemHelper {
    if d.len() > 0 {
        MemHelper {
            num_deallocations: (h.num_deallocations + 1) as u64,
            bytes_allocated: vstd::wrapping::usize_specs::wrapping_sub(h.bytes_allocated, d.len() as usize),
            ..h
        }
    } else {
        h
    }
}

/// The helper after releasing the stored solutions `ls`, the last first.
pub open spec fn release_leaves(h: MemHelper, ls: Seq<Seq<u8>>) -> MemHelper
    decreases ls.len(),
{
    if ls.len() == 0 {
        h
    } else {
        release_leaves(release_leaf(h, ls.last()), ls.drop_last())
    }
}

/// The helper after allocating `size` bytes of host memory.
pub open spec fn alloc_host(h: MemHelper, size: nat) -> MemHelper {
    MemHelper {
        bytes_allocated: (h.bytes_allocated + size) as usize,
        num_allocations: (h.num_allocations + 1) as u64,
        bytes_high_watermark: if h.bytes_allocated + size > h.bytes_high_watermark {
            (h.bytes_allocated + size) as usize
        } else {
            h.bytes_high_watermark
        },
        ..h
    }
}

/// Destroying node `i`: its solutions are released and it is left empty.
pub open spec fn destroy_node(m: FixedModel, h: MemHelper, i: int) -> (FixedModel, MemHelper) {
    (FixedModel { nodes: m.nodes.update(i, (Seq::empty(), true)), ..m }, release_leaves(h, m.nodes[i].0))
}

/// Destroying, from node `i` on in index order, every live node that
/// nothing refers to any more, as dropping the last reference does.
pub open spec fn sweep_from(m: FixedModel, h: MemHelper, i: int) -> (FixedModel, MemHelper)
    decreases m.nodes.len() - i,
{
    if i < 0 || i >= m.nodes.len() {
        (m, h)
    } else if !m.nodes[i].1 && !referenced(m, i as usize) {
        sweep_from(destroy_node(m, h, i).0, destroy_node(m, h, i).1, i + 1)
    } else {
        sweep_from(m, h, i + 1)
    }
}

/// The number of stored solutions.
pub open spec fn leaf_total(nodes: Seq<NodeModel>) -> nat
    decreases nodes.len(),
{
    if nodes.len() == 0 {
        0
    } else {
        leaf_total(nodes.drop_last()) + nodes.last().0.len()
    }
}

proof fn lemma_leaf_total_update(nodes: Seq<NodeModel>, i: int, x: NodeModel)
    requires
        0 <= i < nodes.len(),
    ensures
        leaf_total(nodes.update(i, x)) + nodes[i].0.len() == leaf_total(nodes) + x.0.len(),
    decreases nodes.len(),
{
    let u = nodes.update(i, x);
    if i == nodes.len() - 1 {
        assert(u.drop_last() =~= nodes.drop_last());
    } else {
        assert(u.drop_last() =~= nodes.drop_last().update(i, x));
        lemma_leaf_total_update(nodes.drop_last(), i, x);
    }
}

proof fn lemma_leaf_total_push(nodes: Seq<NodeModel>, x: NodeModel)
    ensures
        leaf_total(nodes.push(x)) == leaf_total(nodes) + x.0.len(),
{
    assert(nodes.push(x).drop_last() =~= nodes);
}

proof fn lemma_release_leaves_count(h: MemHelper, ls: Seq<Seq<u8>>)
    requires
        h.num_deallocations + ls.len() < u64::MAX,
    ensures
        release_leaves(h, ls).num_deallocations <= h.num_deallocations + ls.len(),
        release_leaves(h, ls).num_allocations == h.num_allocations,
        release_leaves(h, ls).bytes_high_watermark == h.bytes_high_watermark,
    decreases ls.len(),
{
    if ls.len() > 0 {
        lemma_release_leaves_count(release_leaf(h, ls.last()), ls.drop_last());
    }
}

/// The structural part of well-formedness, which holds while a sweep is
/// still owed.
pub open spec fn shape_ok(c: &SUNAdjointCheckpointScheme_Fixed_Content) -> bool {
    let m = c.model();
    &&& c.root_node matches Some(r) ==> r.well_sized()
    &&& c.root_node is None ==> c.num_named_children == 0
    &&& c.num_named_children >= 0
    &&& m.root matches Some(s) ==> root_refs_ok(s, m.nodes)
    &&& m.cur_insert matches Some(i) ==> i < m.nodes.len()
    &&& m.cur_load matches Some(i) ==> i < m.nodes.len()
    &&& forall|i: int| 0 <= i < m.nodes.len() && #[trigger] m.nodes[i].1 ==> m.nodes[i].0.len() == 0
    &&& forall|i: int, k: int|
        0 <= i < c.step_nodes@.len() && 0 <= k < c.step_nodes@[i].stages@.len()
            ==> leaf_ok(#[trigger] c.step_nodes@[i].stages@[k])
}

/// Release the solutions of node `i` and mark it destroyed.
fn destroy_node_exec(c: &mut SUNAdjointCheckpointScheme_Fixed_Content, helper: &mut MemHelper, i: usize)
    requires
        i < old(c).step_nodes@.len(),
        shape_ok(old(c)),
        old(helper).num_deallocations + old(c).model().nodes[i as int].0.len() < u64::MAX,
    ensures
        (final(c).model(), *final(helper)) == destroy_node(old(c).model(), *old(helper), i as int),
        final(c).io_mode == old(c).io_mode,
        final(c).step_nodes@.len() == old(c).step_nodes@.len(),
        final(c).step_nodes@[i as int].stages@.len() == 0,
        forall|a: int| 0 <= a < old(c).step_nodes@.len() && a != i ==> #[trigger] final(c).step_nodes@[a] == old(c).step_nodes@[a],
{
    let ghost m0 = c.model();
    let ghost h0 = *helper;
    let mut stages: Vec<SUNMemory> = Vec::new();
    std::mem::swap(&mut stages, &mut c.step_nodes[i].stages);
    c.step_nodes[i].destroyed = true;
    assert(c.step_nodes@[i as int].stages@.map_values(|l: SUNMemory| l.data@) =~= Seq::<Seq<u8>>::empty());
    assert(node_model(c.step_nodes@[i as int]) == (Seq::<Seq<u8>>::empty(), true));
    assert(c.model().nodes =~= m0.nodes.update(i as int, (Seq::empty(), true)));
    let ghost all = stages@.map_values(|l: SUNMemory| l.data@);
    assert(all == m0.nodes[i as int].0);
    proof {
        lemma_release_leaves_count(h0, all);
    }
    while stages.len() > 0
        invariant
            release_leaves(*helper, stages@.map_values(|l: SUNMemory| l.data@)) == release_leaves(h0, all),
            helper.num_deallocations + stages@.len() < u64::MAX,
            forall|k: int| 0 <= k < stages@.len() ==> leaf_ok(#[trigger] stages@[k]),
        decreases stages@.len(),
    {
        let ghost before = stages@;
        let ghost hb = *helper;
        let leaf = stages.pop().unwrap();
        assert(leaf_ok(before[before.len() - 1]));
        let _ = SUNMemoryHelper_Dealloc_Sys(helper, Some(leaf));
        proof {
            let ls = before.map_values(|l: SUNMemory| l.data@);
            assert(stages@.map_values(|l: SUNMemory| l.data@) =~= ls.drop_last());
            assert(ls.last() == leaf.data@);
            assert(*helper == release_leaf(hb, leaf.data@));
        }
    }
    assert(stages@.map_values(|l: SUNMemory| l.data@) =~= Seq::<Seq<u8>>::empty());
}

/// Destroy, in index order, every live node that nothing refers to.
fn sweep_unreferenced(c: &mut SUNAdjointCheckpointScheme_Fixed_Content, helper: &mut MemHelper)
    requires
        shape_ok(old(c)),
        old(helper).num_deallocations + leaf_total(old(c).model().nodes) < u64::MAX,
    ensures
        (final(c).model(), *final(helper)) == sweep_from(old(c).model(), *old(helper), 0),
        final(c).io_mode == old(c).io_mode,
        shape_ok(final(c)),
        final(c).wf(),
        final(helper).num_deallocations + leaf_total(final(c).model().nodes) <= old(helper).num_deallocations + leaf_total(old(c).model().nodes),
{
    let ghost m0 = c.model();
    let ghost h0 = *helper;
    let n = c.step_nodes.len();
    let mut held: Vec<bool> = Vec::new();
    let mut k: usize = 0;
    while k < n
        invariant
            k <= n,
            held@.len() == k,
            forall|q: int| 0 <= q < k ==> !held@[q],
        decreases n - k,
    {
        held.push(false);
        k = k + 1;
    }
    match &c.root_node {
        Some(root) => {
            let cap = root.buckets.len();
            let mut j: usize = 0;
            while j < cap
                invariant
                    cap == root.buckets@.len(),
                    n == c.step_nodes@.len(),
                    held@.len() == n,
                    j <= cap,
                    forall|q: int| 0 <= q < n ==> (held@[q] <==> exists|p: int|
                        0 <= p < j && root.slots()[p] is Some && #[trigger] root.slots()[p].unwrap().1 == q as usize),
                decreases cap - j,
            {
                let ghost hb = held@;
                assert(root.slots()[j as int] == slot_view(root.buckets@[j as int]));
                match &root.buckets[j] {
                    Some(kv) => {
                        if kv.value < n {
                            held.set(kv.value, true);
                        }
                    },
                    None => {},
                }
                proof {
                    assert forall|q: int| 0 <= q < n implies (held@[q] <==> exists|p: int|
                        0 <= p < j + 1 && root.slots()[p] is Some && #[trigger] root.slots()[p].unwrap().1 == q as usize) by {
                        if root.slots()[j as int] is Some && root.slots()[j as int].unwrap().1 == q as usize {
                            assert(held@[q]);
                        } else {
                            assert(held@[q] == hb[q]);
                            if exists|p: int| 0 <= p < j + 1 && root.slots()[p] is Some && #[trigger] root.slots()[p].unwrap().1 == q as usize {
                                let p = choose|p: int| 0 <= p < j + 1 && root.slots()[p] is Some && #[trigger] root.slots()[p].unwrap().1 == q as usize;
                                assert(p != j);
                            }
                        }
                    }
                }
                j = j + 1;
            }
        },
        None => {},
    }
    assert(forall|q: usize| q < n ==> (held@[q as int] <==> in_root(m0, q)));
    let mut i: usize = 0;
    while i < n
        invariant
            n == c.step_nodes@.len(),
            held@.len() == n,
            i <= n,
            shape_ok(c),
            c.model().root == m0.root,
            c.model().cur_insert == m0.cur_insert,
            c.model().cur_load == m0.cur_load,
            c.io_mode == old(c).io_mode,
            forall|q: usize| q < n ==> (held@[q as int] <==> in_root(c.model(), q)),
            sweep_from(c.model(), *helper, i as int) == sweep_from(m0, h0, 0),
            forall|q: usize| q < i && !referenced(c.model(), q) ==> #[trigger] c.model().nodes[q as int].1,
            helper.num_deallocations + leaf_total(c.model().nodes) <= h0.num_deallocations + leaf_total(m0.nodes),
            h0.num_deallocations + leaf_total(m0.nodes) < u64::MAX,
        decreases n - i,
    {
        let live = !c.step_nodes[i].destroyed;
        let mine = match c.current_insert_step_node {
            Some(x) => x == i,
            None => false,
        } || match c.current_load_step_node {
            Some(x) => x == i,
            None => false,
        };
        if live && !held[i] && !mine {
            let ghost mb = c.model();
            let ghost hb = *helper;
            let ghost old_nodes = c.step_nodes@;
            proof {
                lemma_leaf_total_update(mb.nodes, i as int, (Seq::empty(), true));
            }
            destroy_node_exec(c, helper, i);
            proof {
                lemma_release_leaves_count(hb, mb.nodes[i as int].0);
                assert(c.model().nodes =~= mb.nodes.update(i as int, (Seq::empty(), true)));
                assert forall|q: usize| q < n implies (held@[q as int] <==> in_root(c.model(), q)) by {
                    assert(in_root(c.model(), q) == in_root(mb, q));
                }
                assert forall|a: int, b: int|
                    0 <= a < c.step_nodes@.len() && 0 <= b < c.step_nodes@[a].stages@.len()
                        implies leaf_ok(#[trigger] c.step_nodes@[a].stages@[b]) by {
                    assert(a != i);
                    assert(c.step_nodes@[a] == old_nodes[a]);
                }
            }
        }
        i = i + 1;
    }
}

proof fn lemma_sweep_keeps(m: FixedModel, h: MemHelper, i: int)
    ensures
        sweep_from(m, h, i).0.nodes.len() == m.nodes.len(),
        sweep_from(m, h, i).0 == (FixedModel { nodes: sweep_from(m, h, i).0.nodes, ..m }),
        forall|k: int| 0 <= k < m.nodes.len() && (referenced(m, k as usize) || k < i) ==>
            #[trigger] sweep_from(m, h, i).0.nodes[k] == m.nodes[k],
    decreases m.nodes.len() - i,
{
    if i < 0 || i >= m.nodes.len() {
    } else if !m.nodes[i].1 && !referenced(m, i as usize) {
        let m1 = destroy_node(m, h, i).0;
        let h1 = destroy_node(m, h, i).1;
        assert(forall|k: usize| referenced(m1, k) == referenced(m, k));
        lemma_sweep_keeps(m1, h1, i + 1);
    } else {
        lemma_sweep_keeps(m, h, i + 1);
    }
}

proof fn lemma_root_after_insert(s: Seq<Slot<usize>>, nodes: Seq<NodeModel>, key: Seq<char>)
    requires
        1 <= s.len() <= SUNHASHMAP_MAX_CAPACITY,
        root_refs_ok(s, nodes),
        nodes.len() < usize::MAX,
    ensures
        root_refs_ok(
            spec_insert(s, key, nodes.len() as usize).0,
            nodes.push((Seq::empty(), false)),
        ),
{
    let n = nodes.len() as usize;
    let nodes2 = nodes.push((Seq::<Seq<u8>>::empty(), false));
    let t = spec_insert(s, key, n).0;
    lemma_insert_values(s, key, n);
    assert(unique_values(s));
    if holds_value(s, n) {
        let j = choose|j: int| 0 <= j < s.len() && #[trigger] s[j] is Some && s[j].unwrap().1 == n;
        assert(s[j] is Some);
    }
    assert forall|j: int| 0 <= j < t.len() && #[trigger] t[j] is Some implies t[j].unwrap().1 < nodes2.len()
        && !nodes2[t[j].unwrap().1 as int].1 by {
        let v = t[j].unwrap().1;
        assert(holds_value(t, v));
        if v != n {
            assert(holds_value(s, v));
            let p = choose|p: int| 0 <= p < s.len() && #[trigger] s[p] is Some && s[p].unwrap().1 == v;
            assert(s[p] is Some);
        }
    }
    assert(unique_values(t));
}

/// The node a new solution of step `step` goes to, with the scheme and the
/// helper just before the solution is stored. A step other than the
/// current insert step gets a new node, which becomes the current insert
/// node and is named in the root table under the step's key (the table
/// may refuse it, or drop entries while growing); the counter of named
/// children rises when the table takes it, and nodes that nothing refers
/// to any more are destroyed. The current insert step keeps its node.
pub open spec fn insert_target(m: FixedModel, h: MemHelper, step: i64) -> (FixedModel, MemHelper, int) {
    if step != m.insert_step {
        let n = m.nodes.len();
        let ins = spec_insert(m.root.unwrap(), step_key(step), n as usize);
        let m1 = FixedModel {
            nodes: m.nodes.push((Seq::empty(), false)),
            cur_insert: Some(n as usize),
            insert_step: step,
            root: Some(ins.0),
            count: if ins.1 == 0 {
                (m.count + 1) as i64
            } else {
                m.count
            },
            ..m
        };
        (sweep_from(m1, h, 0).0, sweep_from(m1, h, 0).1, n as int)
    } else {
        (m, h, m.cur_insert.unwrap() as int)
    }
}

/// The inputs on which storing `len` bytes for step `step` runs: a new
/// step needs the root table and room in the counter, the current step
/// needs its node alive, and the helper's counters must not overflow.
pub open spec fn insert_vector_ok(m: FixedModel, h: MemHelper, step: i64, len: nat) -> bool {
    &&& step != m.insert_step ==> m.root is Some && m.count < i64::MAX && m.nodes.len() + 1 < usize::MAX
    &&& step == m.insert_step ==> (m.cur_insert matches Some(i) && !m.nodes[i as int].1)
    &&& h.num_deallocations + leaf_total(m.nodes) < u64::MAX
    &&& insert_target(m, h, step).1.bytes_allocated + len <= usize::MAX
    &&& insert_target(m, h, step).1.num_allocations < u64::MAX
}

/// The scheme and helper after storing `data` as the next solution of step
/// `step`: the bytes are allocated from the helper as host memory and
/// appended to the step's node.
pub open spec fn insert_vector_model(m: FixedModel, h: MemHelper, step: i64, data: Seq<u8>) -> (FixedModel, MemHelper) {
    let t = insert_target(m, h, step);
    (
        FixedModel { nodes: t.0.nodes.update(t.2, (t.0.nodes[t.2].0.push(data), false)), ..t.0 },
        alloc_host(t.1, data.len()),
    )
}

/// Store `data` (the time followed by the vector, as bytes) as the next
/// solution of step `step_num`; the stage number is not consulted.
pub fn SUNAdjointCheckpointScheme_InsertVector_Fixed(
    c: &mut SUNAdjointCheckpointScheme_Fixed_Content,
    helper: &mut MemHelper,
    step_num: suncountertype,
    stage_num: suncountertype,
    data: Vec<u8>,
) -> (err: SUNErrCode)
    requires
        old(c).wf(),
        insert_vector_ok(old(c).model(), *old(helper), step_num, data@.len()),
    ensures
        err == SUN_SUCCESS,
        final(c).wf(),
        (final(c).model(), *final(helper)) == insert_vector_model(old(c).model(), *old(helper), step_num, data@),
        final(c).io_mode == old(c).io_mode,
{
    let ghost m0 = c.model();
    let ghost h0 = *helper;
    let i: usize;
    if step_num != c.step_num_of_current_insert {
        let n = c.step_nodes.len();
        c.step_nodes.push(SUNCheckpointStepNode { stages: Vec::new(), destroyed: false });
        c.current_insert_step_node = Some(n);
        c.step_num_of_current_insert = step_num;
        let key = sunSignedToString(step_num);
        let mut root = c.root_node.take().unwrap();
        let ghost s0 = root.slots();
        proof {
            lemma_root_after_insert(s0, m0.nodes, key@);
        }
        let r = SUNHashMap_Insert(&mut root, key.as_str(), n);
        c.root_node = Some(root);
        if r == 0 {
            c.num_named_children = c.num_named_children + 1;
        }
        let ghost m1 = c.model();
        proof {
            assert(c.step_nodes@[n as int].stages@.map_values(|l: SUNMemory| l.data@) =~= Seq::<Seq<u8>>::empty());
            assert(m1.nodes =~= m0.nodes.push((Seq::empty(), false)));
            lemma_leaf_total_push(m0.nodes, (Seq::empty(), false));
            assert forall|a: int, b: int|
                0 <= a < c.step_nodes@.len() && 0 <= b < c.step_nodes@[a].stages@.len()
                    implies leaf_ok(#[trigger] c.step_nodes@[a].stages@[b]) by {
                assert(a < n);
                assert(c.step_nodes@[a] == old(c).step_nodes@[a]);
            }
            assert(m1 == insert_target_pre(m0, step_num));
        }
        sweep_unreferenced(c, helper);
        proof {
            lemma_sweep_keeps(m1, h0, 0);
            assert(referenced(m1, n));
        }
        i = n;
    } else {
        i = c.current_insert_step_node.unwrap();
    }
    let ghost t = insert_target(m0, h0, step_num);
    assert(c.model() == t.0 && *helper == t.1 && i == t.2);
    let ghost mb = c.model();
    let ghost before = c.step_nodes@;
    let len = data.len();
    let mut leaf: Option<SUNMemory> = None;
    let _ = SUNMemoryHelper_AllocStrided_Sys(helper, &mut leaf, len, SUN_REAL_BYTES, SUNMemoryType::SUNMEMTYPE_HOST);
    let mut leaf = leaf.unwrap();
    leaf.data = data;
    c.step_nodes[i].stages.push(leaf);
    proof {
        assert(c.step_nodes@[i as int].stages@.map_values(|l: SUNMemory| l.data@) =~= mb.nodes[i as int].0.push(leaf.data@));
        assert(c.model().nodes =~= mb.nodes.update(i as int, (mb.nodes[i as int].0.push(data@), false)));
        assert forall|a: int, b: int|
            0 <= a < c.step_nodes@.len() && 0 <= b < c.step_nodes@[a].stages@.len()
                implies leaf_ok(#[trigger] c.step_nodes@[a].stages@[b]) by {
            if a != i {
                assert(c.step_nodes@[a] == before[a]);
            } else if b < before[a].stages@.len() {
                assert(c.step_nodes@[a].stages@[b] == before[a].stages@[b]);
            }
        }
        assert(forall|k: usize| referenced(c.model(), k) == referenced(mb, k));
    }
    SUN_SUCCESS
}

/// The scheme right after a new step's node is created and named in the
/// root table, before the sweep.
pub open spec fn insert_target_pre(m: FixedModel, step: i64) -> FixedModel {
    let n = m.nodes.len();
    let ins = spec_insert(m.root.unwrap(), step_key(step), n as usize);
    FixedModel {
        nodes: m.nodes.push((Seq::empty(), false)),
        cur_insert: Some(n as usize),
        insert_step: step,
        root: Some(ins.0),
        count: if ins.1 == 0 {
            (m.count + 1) as i64
        } else {
            m.count
        },
        ..m
    }
}

/// The node a load of step `step` reads, with the scheme and the helper
/// once it is found. A step other than the current load step is looked up
/// by its key in the root table, unless the root names no child; a node
/// found becomes the current load node, and nodes that nothing refers to
/// any more are destroyed. The current load step reads the current load
/// node.
pub open spec fn load_target(m: FixedModel, h: MemHelper, step: i64) -> (FixedModel, MemHelper, Option<usize>) {
    if step != m.load_step {
        if m.count == 0 {
            (m, h, None)
        } else {
            match spec_get(m.root.unwrap(), step_key(step)) {
                Some(j) => {
                    let m1 = FixedModel { cur_load: Some(j), load_step: step, ..m };
                    (sweep_from(m1, h, 0).0, sweep_from(m1, h, 0).1, Some(j))
                },
                None => (m, h, None),
            }
        }
    } else {
        (m, h, m.cur_load)
    }
}

/// The solutions left in a node after a consuming load of `stage`: the
/// stage's solution leaves the list when there is one.
pub open spec fn after_take(st: Seq<Seq<u8>>, stage: i64) -> Seq<Seq<u8>> {
    if 0 <= stage < st.len() {
        st.remove(stage as int)
    } else {
        st
    }
}

/// The inputs on which a load runs: the current load node, when read, is
/// alive; a consuming load that empties its node finds the step's key in
/// the root table; and the helper's deallocation counter cannot overflow.
pub open spec fn load_vector_ok(m: FixedModel, h: MemHelper, step: i64, stage: i64, peek: bool) -> bool {
    let t = load_target(m, h, step);
    &&& h.num_deallocations + leaf_total(m.nodes) < u64::MAX
    &&& step == m.load_step ==> (m.cur_load matches Some(i) ==> !m.nodes[i as int].1)
    &&& (t.2 matches Some(i) && !(m.keep || peek) && after_take(t.0.nodes[i as int].0, stage).len() == 0)
        ==> (t.0.count != 0 && spec_get(t.0.root.unwrap(), step_key(step)) is Some)
}

/// The outcome of a load of solution `stage` of step `step`: the scheme,
/// the helper, the return code and the bytes read.
///
/// Without the step's node the load fails. When loaded solutions are kept,
/// or the load only peeks, the solution is read and nothing changes.
/// Otherwise the solution is taken out of its node and released; a node
/// left empty is removed from the root table and destroyed; a stage that
/// the node does not hold fails the load after that clean-up.
pub open spec fn load_vector_model(m: FixedModel, h: MemHelper, step: i64, stage: i64, peek: bool)
    -> (FixedModel, MemHelper, SUNErrCode, Option<Seq<u8>>)
{
    let t = load_target(m, h, step);
    match t.2 {
        None => (t.0, t.1, SUN_ERR_CHECKPOINT_NOT_FOUND, None),
        Some(i) => {
            let st = t.0.nodes[i as int].0;
            let found = 0 <= stage < st.len();
            if m.keep || peek {
                if found {
                    (t.0, t.1, SUN_SUCCESS, Some(st[stage as int]))
                } else {
                    (t.0, t.1, SUN_ERR_CHECKPOINT_NOT_FOUND, None)
                }
            } else {
                let st2 = after_take(st, stage);
                let m2 = FixedModel { nodes: t.0.nodes.update(i as int, (st2, t.0.nodes[i as int].1)), ..t.0 };
                let r = if st2.len() == 0 {
                    let s = m2.root.unwrap();
                    let f = spec_find(s, step_key(step));
                    let m2b = FixedModel { root: Some(s.update(f, None)), count: (m2.count - 1) as i64, ..m2 };
                    destroy_node(m2b, t.1, s[f].unwrap().1 as int)
                } else {
                    (m2, t.1)
                };
                if found {
                    (r.0, release_leaf(r.1, st[stage as int]), SUN_SUCCESS, Some(st[stage as int]))
                } else {
                    (r.0, r.1, SUN_ERR_CHECKPOINT_NOT_FOUND, None)
                }
            }
        },
    }
}

proof fn lemma_get_found(s: Seq<Slot<usize>>, key: Seq<char>)
    requires
        1 <= s.len(),
        spec_get(s, key) is Some,
    ensures
        0 <= spec_find(s, key) < s.len(),
        s[spec_find(s, key)] is Some,
        s[spec_find(s, key)].unwrap().1 == spec_get(s, key).unwrap(),
{
    lemma_home_range(key, s.len() as int);
    lemma_first_key_from(s, key, spec_home(key, s.len() as int));
}

/// Find the node a load of step `step_num` reads.
fn load_find_node(c: &mut SUNAdjointCheckpointScheme_Fixed_Content, helper: &mut MemHelper, step_num: suncountertype) -> (node: Option<usize>)
    requires
        old(c).wf(),
        old(helper).num_deallocations + leaf_total(old(c).model().nodes) < u64::MAX,
    ensures
        final(c).wf(),
        (final(c).model(), *final(helper), node) == load_target(old(c).model(), *old(helper), step_num),
        final(c).io_mode == old(c).io_mode,
        final(helper).num_deallocations + leaf_total(final(c).model().nodes) <= old(helper).num_deallocations + leaf_total(old(c).model().nodes),
        node matches Some(i) ==> i < final(c).step_nodes@.len(),
        step_num != old(c).step_num_of_current_load ==> (node matches Some(i) ==> !final(c).model().nodes[i as int].1),
        final(c).keep == old(c).keep,
{
    let ghost m0 = c.model();
    let ghost h0 = *helper;
    if step_num != c.step_num_of_current_load {
        if c.num_named_children != 0 {
            let key = sunSignedToString(step_num);
            let found: Option<usize> = match &c.root_node {
                Some(root) => {
                    let (rv, v) = SUNHashMap_GetValue(root, key.as_str());
                    if rv == 0 {
                        Some(*v.unwrap())
                    } else {
                        None
                    }
                },
                None => None,
            };
            match found {
                Some(j) => {
                    proof {
                        let sl = m0.root.unwrap();
                        lemma_get_found(sl, key@);
                        let f = spec_find(sl, key@);
                        assert(sl[f] is Some);
                    }
                    c.current_load_step_node = Some(j);
                    c.step_num_of_current_load = step_num;
                    let ghost m1 = c.model();
                    assert(m1.nodes == m0.nodes);
                    sweep_unreferenced(c, helper);
                    proof {
                        lemma_sweep_keeps(m1, h0, 0);
                        assert(referenced(m1, j));
                    }
                    return Some(j);
                },
                None => {
                    return None;
                },
            }
        }
        None
    } else {
        c.current_load_step_node
    }
}

/// Take solution `stage` out of node `i`, when the node holds it.
fn take_stage(c: &mut SUNAdjointCheckpointScheme_Fixed_Content, i: usize, stage: suncountertype) -> (sol: Option<SUNMemory>)
    requires
        shape_ok(old(c)),
        i < old(c).step_nodes@.len(),
        !old(c).model().nodes[i as int].1,
    ensures
        shape_ok(final(c)),
        final(c).model() == (FixedModel {
            nodes: old(c).model().nodes.update(i as int, (after_take(old(c).model().nodes[i as int].0, stage), false)),
            ..old(c).model()
        }),
        final(c).io_mode == old(c).io_mode,
        0 <= stage < old(c).model().nodes[i as int].0.len() ==> (sol matches Some(l) && leaf_ok(l)
            && l.data@ == old(c).model().nodes[i as int].0[stage as int]),
        !(0 <= stage < old(c).model().nodes[i as int].0.len()) ==> sol is None,
{
    let ghost mt = c.model();
    let ghost st = mt.nodes[i as int].0;
    let ghost before = c.step_nodes@;
    let len = c.step_nodes[i].stages.len();
    if stage >= 0 && (stage as u64) < (len as u64) {
        let leaf = c.step_nodes[i].stages.remove(stage as usize);
        proof {
            assert(c.step_nodes@[i as int].stages@ == before[i as int].stages@.remove(stage as int));
            assert(c.step_nodes@[i as int].stages@.map_values(|l: SUNMemory| l.data@) =~= after_take(st, stage));
            assert(c.model().nodes =~= mt.nodes.update(i as int, (after_take(st, stage), false)));
            assert forall|a: int, b: int|
                0 <= a < c.step_nodes@.len() && 0 <= b < c.step_nodes@[a].stages@.len()
                    implies leaf_ok(#[trigger] c.step_nodes@[a].stages@[b]) by {
                if a != i {
                    assert(c.step_nodes@[a] == before[a]);
                } else if b < stage {
                    assert(c.step_nodes@[a].stages@[b] == before[a].stages@[b]);
                } else {
                    assert(c.step_nodes@[a].stages@[b] == before[a].stages@[b + 1]);
                }
            }
            assert(leaf_ok(before[i as int].stages@[stage as int]));
        }
        Some(leaf)
    } else {
        assert(c.model().nodes =~= mt.nodes.update(i as int, (after_take(st, stage), false)));
        None
    }
}

/// Remove step `step_num` from the root table and destroy the node it
/// named.
#[verifier::spinoff_prover]
#[verifier::rlimit(30)]
fn remove_step(c: &mut SUNAdjointCheckpointScheme_Fixed_Content, helper: &mut MemHelper, step_num: suncountertype)
    requires
        shape_ok(old(c)),
        forall|q: usize| q < old(c).model().nodes.len() && !referenced(old(c).model(), q) ==> #[trigger] old(c).model().nodes[q as int].1,
        old(c).num_named_children != 0,
        spec_get(old(c).model().root.unwrap(), step_key(step_num)) is Some,
        old(helper).num_deallocations + leaf_total(old(c).model().nodes) < u64::MAX,
    ensures
        final(c).wf(),
        final(c).io_mode == old(c).io_mode,
        ({
            let s = old(c).model().root.unwrap();
            let f = spec_find(s, step_key(step_num));
            let m2b = FixedModel { root: Some(s.update(f, None)), count: (old(c).model().count - 1) as i64, ..old(c).model() };
            (final(c).model(), *final(helper)) == destroy_node(m2b, *old(helper), s[f].unwrap().1 as int)
        }),
        final(helper).num_deallocations + leaf_total(final(c).model().nodes) <= old(helper).num_deallocations
            + leaf_total(old(c).model().nodes),
{
    let ghost m2 = c.model();
    let key = sunSignedToString(step_num);
    let mut root = c.root_node.take().unwrap();
    let ghost s = root.slots();
    let (rv, v) = SUNHashMap_Remove(&mut root, key.as_str());
    c.root_node = Some(root);
    let j = v.unwrap();
    c.num_named_children = c.num_named_children - 1;
    let ghost f = spec_find(s, key@);
    let ghost s2 = s.update(f, None);
    proof {
        lemma_get_found(s, key@);
        assert(s[f] is Some && s[f].unwrap().1 == j);
        assert(root_refs_ok(s, m2.nodes));
        assert forall|q: int| 0 <= q < s.len() && #[trigger] s2[q] is Some implies s2[q].unwrap().1 != j by {
            assert(s2[q] == s[q]);
            assert(s[q] is Some);
        }
        lemma_leaf_total_update(m2.nodes, j as int, (Seq::empty(), true));
        lemma_release_leaves_count(*helper, m2.nodes[j as int].0);
    }
    let ghost sn = c.step_nodes@;
    destroy_node_exec(c, helper, j);
    proof {
        assert forall|q: usize| q < c.model().nodes.len() && !referenced(c.model(), q) implies #[trigger] c.model().nodes[q as int].1 by {
            if q != j {
                if in_root(m2, q) {
                    let p = choose|p: int| 0 <= p < s.len() && s[p] is Some && #[trigger] s[p].unwrap().1 == q;
                    assert(p != f);
                    assert(s2[p] is Some && s2[p].unwrap().1 == q);
                    assert(in_root(c.model(), q));
                }
                assert(!referenced(m2, q));
            }
        }
        assert forall|a: int, b: int|
            0 <= a < c.step_nodes@.len() && 0 <= b < c.step_nodes@[a].stages@.len()
                implies leaf_ok(#[trigger] c.step_nodes@[a].stages@[b]) by {
            assert(a != j);
            assert(c.step_nodes@[a] == sn[a]);
            assert(leaf_ok(sn[a].stages@[b]));
        }
        assert(root_refs_ok(s2, c.model().nodes));
    }
}

/// Load solution `stage_num` of step `step_num` into `out` (the time
/// followed by the vector, as bytes). Unless the scheme keeps loaded
/// solutions or `peek` is set, the solution is removed once read, and the
/// step with it when it was the step's last.
pub fn SUNAdjointCheckpointScheme_LoadVector_Fixed(
    c: &mut SUNAdjointCheckpointScheme_Fixed_Content,
    helper: &mut MemHelper,
    step_num: suncountertype,
    stage_num: suncountertype,
    peek: sunbooleantype,
    out: &mut Vec<u8>,
) -> (err: SUNErrCode)
    requires
        old(c).wf(),
        load_vector_ok(old(c).model(), *old(helper), step_num, stage_num, peek),
    ensures
        final(c).wf(),
        final(c).model() == load_vector_model(old(c).model(), *old(helper), step_num, stage_num, peek).0,
        *final(helper) == load_vector_model(old(c).model(), *old(helper), step_num, stage_num, peek).1,
        err == load_vector_model(old(c).model(), *old(helper), step_num, stage_num, peek).2,
        load_vector_model(old(c).model(), *old(helper), step_num, stage_num, peek).3 matches Some(d)
            ==> final(out)@ == d,
        load_vector_model(old(c).model(), *old(helper), step_num, stage_num, peek).3 is None
            ==> final(out)@ == old(out)@,
        final(c).io_mode == old(c).io_mode,
{
    let ghost m0 = c.model();
    let ghost h0 = *helper;
    let node = load_find_node(c, helper, step_num);
    let ghost t = load_target(m0, h0, step_num);
    let i = match node {
        None => {
            return SUN_ERR_CHECKPOINT_NOT_FOUND;
        },
        Some(i) => i,
    };
    let ghost mt = c.model();
    let ghost ht = *helper;
    let ghost st = mt.nodes[i as int].0;
    let len = c.step_nodes[i].stages.len();
    let found = stage_num >= 0 && (stage_num as u64) < (len as u64);
    assert(found == (0 <= stage_num < st.len()));
    assert(mt.keep == m0.keep);
    if c.keep || peek {
        if found {
            let d = c.step_nodes[i].stages[stage_num as usize].data.clone();
            assert(d@ == st[stage_num as int]);
            *out = d;
            assert(load_vector_model(m0, h0, step_num, stage_num, peek) == (t.0, t.1, SUN_SUCCESS, Some(st[stage_num as int])));
            return SUN_SUCCESS;
        }
        assert(load_vector_model(m0, h0, step_num, stage_num, peek) == (t.0, t.1, SUN_ERR_CHECKPOINT_NOT_FOUND, None::<Seq<u8>>));
        return SUN_ERR_CHECKPOINT_NOT_FOUND;
    }
    let sol = take_stage(c, i, stage_num);
    let ghost m2 = c.model();
    proof {
        lemma_leaf_total_update(mt.nodes, i as int, (after_take(st, stage_num), false));
        assert(forall|k: usize| referenced(m2, k) == referenced(mt, k));
        assert(m2.nodes[i as int].0 == after_take(st, stage_num));
    }
    if c.step_nodes[i].stages.len() == 0 {
        assert(m2.nodes[i as int].0.len() == 0);
        remove_step(c, helper, step_num);
    } else {
        assert(forall|k: usize| referenced(c.model(), k) == referenced(mt, k));
    }
    match sol {
        None => SUN_ERR_CHECKPOINT_NOT_FOUND,
        Some(leaf) => {
            let d = leaf.data.clone();
            let ghost hb = *helper;
            let _ = SUNMemoryHelper_Dealloc_Sys(helper, Some(leaf));
            assert(*helper == release_leaf(hb, leaf.data@));
            *out = d;
            SUN_SUCCESS
        },
    }
}

/// The helper after releasing the solutions of the nodes `ns`, node by
/// node in order.
pub open spec fn release_nodes(h: MemHelper, ns: Seq<NodeModel>) -> MemHelper
    decreases ns.len(),
{
    if ns.len() == 0 {
        h
    } else {
        release_nodes(release_leaves(h, ns[0].0), ns.drop_first())
    }
}

/// Destroy the scheme and its checkpoint tree: every solution still stored
/// is released through the helper.
pub fn SUNAdjointCheckpointScheme_Destroy_Fixed(
    self_ptr: &mut Option<SUNAdjointCheckpointScheme_Fixed_Content>,
    helper: &mut MemHelper,
) -> (err: SUNErrCode)
    requires
        *old(self_ptr) matches Some(c) && c.wf(),
        old(helper).num_deallocations + leaf_total(old(self_ptr).unwrap().model().nodes) < u64::MAX,
    ensures
        err == SUN_SUCCESS,
        *final(self_ptr) is None,
        *final(helper) == release_nodes(*old(helper), old(self_ptr).unwrap().model().nodes),
{
    let mut c = self_ptr.take().unwrap();
    let ghost nodes0 = c.model().nodes;
    let ghost h0 = *helper;
    c.root_node = None;
    c.num_named_children = 0;
    assert(c.model().nodes == nodes0);
    let n = c.step_nodes.len();
    let mut i: usize = 0;
    assert(nodes0.subrange(0, n as int) =~= nodes0);
    while i < n
        invariant
            n == c.step_nodes@.len(),
            i <= n,
            shape_ok(&c),
            c.root_node is None,
            c.model().nodes.len() == n,
            nodes0.len() == n,
            c.model().nodes.subrange(i as int, n as int) == nodes0.subrange(i as int, n as int),
            release_nodes(*helper, c.model().nodes.subrange(i as int, n as int)) == release_nodes(h0, nodes0),
            helper.num_deallocations + leaf_total(c.model().nodes) <= h0.num_deallocations + leaf_total(nodes0),
            h0.num_deallocations + leaf_total(nodes0) < u64::MAX,
        decreases n - i,
    {
        let ghost mb = c.model();
        let ghost hb = *helper;
        proof {
            lemma_leaf_total_update(mb.nodes, i as int, (Seq::empty(), true));
            lemma_release_leaves_count(hb, mb.nodes[i as int].0);
        }
        destroy_node_exec(&mut c, helper, i);
        proof {
            let rest = mb.nodes.subrange(i as int, n as int);
            assert(rest[0] == mb.nodes[i as int]);
            assert(rest.drop_first() =~= c.model().nodes.subrange(i + 1, n as int));
            assert(c.model().nodes.subrange(i + 1, n as int) =~= nodes0.subrange(i + 1, n as int)) by {
                assert(mb.nodes.subrange(i as int, n as int) == nodes0.subrange(i as int, n as int));
                assert forall|k: int| 0 <= k < n - (i + 1) implies #[trigger] c.model().nodes.subrange(i + 1, n as int)[k]
                    == nodes0.subrange(i + 1, n as int)[k] by {
                    assert(c.model().nodes[i + 1 + k] == mb.nodes[i + 1 + k]);
                    assert(mb.nodes.subrange(i as int, n as int)[k + 1] == nodes0.subrange(i as int, n as int)[k + 1]);
                }
            }
            assert forall|a: int, b: int|
                0 <= a < c.step_nodes@.len() && 0 <= b < c.step_nodes@[a].stages@.len()
                    implies leaf_ok(#[trigger] c.step_nodes@[a].stages@[b]) by {
                assert(a != i);
            }
        }
        i = i + 1;
    }
    assert(c.model().nodes.subrange(n as int, n as int) =~= Seq::<NodeModel>::empty());
    SUN_SUCCESS
}

proof fn lemma_sweep_bound(m: FixedModel, h: MemHelper, i: int)
    requires
        h.num_deallocations + leaf_total(m.nodes) < u64::MAX,
    ensures
        sweep_from(m, h, i).1.num_deallocations + leaf_total(sweep_from(m, h, i).0.nodes)
            <= h.num_deallocations + leaf_total(m.nodes),
        sweep_from(m, h, i).1.num_allocations == h.num_allocations,
    decreases m.nodes.len() - i,
{
    if i < 0 || i >= m.nodes.len() {
    } else if !m.nodes[i].1 && !referenced(m, i as usize) {
        let d = destroy_node(m, h, i);
        lemma_leaf_total_update(m.nodes, i, (Seq::empty(), true));
        lemma_release_leaves_count(h, m.nodes[i].0);
        lemma_sweep_bound(d.0, d.1, i + 1);
    } else {
        lemma_sweep_bound(m, h, i + 1);
    }
}

/// What a load gives back of a write: once the first solution of a new
/// step is stored, and the root table (well formed, without the step's
/// key) takes the step, a load of stage zero of that step returns the
/// stored bytes, whether it peeks, keeps or consumes the solution.
pub proof fn law_insert_then_load(
    c: SUNAdjointCheckpointScheme_Fixed_Content,
    h: MemHelper,
    step: i64,
    data: Seq<u8>,
    peek: bool,
)
    requires
        c.wf(),
        step != c.step_num_of_current_insert,
        step != c.step_num_of_current_load,
        c.root_node matches Some(r) && wf_slots(r.slots()) && !has_key(r.slots(), step_key(step))
            && insert_within_limit(r.slots(), step_key(step), c.step_nodes.len()),
        insert_vector_ok(c.model(), h, step, data.len()),
        h.num_deallocations + leaf_total(c.model().nodes) + 1 < u64::MAX,
    ensures
        ({
            let w = insert_vector_model(c.model(), h, step, data);
            &&& load_vector_ok(w.0, w.1, step, 0, peek)
            &&& load_vector_model(w.0, w.1, step, 0, peek).2 == SUN_SUCCESS
            &&& load_vector_model(w.0, w.1, step, 0, peek).3 == Some(data)
        }),
{
    let m = c.model();
    let key = step_key(step);
    let s = m.root.unwrap();
    let n = m.nodes.len();
    law_insert_fresh(s, key, n as usize);
    let t = spec_insert(s, key, n as usize).0;
    crate::sundials_hashmap::lemma_insert_len(s, key, n as usize);
    law_get_is_lookup(t, key);
    lemma_insert_values(s, key, n as usize);
    let ma = insert_target_pre(m, step);
    lemma_sweep_keeps(ma, h, 0);
    lemma_leaf_total_push(m.nodes, (Seq::empty(), false));
    lemma_sweep_bound(ma, h, 0);
    let tg = insert_target(m, h, step);
    assert(tg.2 == n);
    assert(referenced(ma, n as usize));
    assert(tg.0.nodes[n as int] == (Seq::<Seq<u8>>::empty(), false));
    let w = insert_vector_model(m, h, step, data);
    lemma_leaf_total_update(tg.0.nodes, n as int, (seq![data], false));
    assert(tg.0.nodes[n as int].0.push(data) =~= seq![data]);
    assert(w.0.root == Some(t));
    assert(w.0.count != 0);
    assert(spec_get(t, key) == Some(n as usize));
    let mc = FixedModel { cur_load: Some(n as usize), load_step: step, ..w.0 };
    lemma_sweep_keeps(mc, w.1, 0);
    assert(referenced(mc, n as usize));
    let lt = load_target(w.0, w.1, step);
    assert(lt.2 == Some(n as usize));
    assert(lt.0.nodes[n as int] == w.0.nodes[n as int]);
    assert(w.0.nodes[n as int].0 =~= seq![data]);
    assert(lt.0.root == Some(t));
}

/// The scheme and helper after storing each of `ds`, in order, as the next
/// solution of step `step`.
pub open spec fn insert_all(m: FixedModel, h: MemHelper, step: i64, ds: Seq<Seq<u8>>) -> (FixedModel, MemHelper)
    decreases ds.len(),
{
    if ds.len() == 0 {
        (m, h)
    } else {
        let p = insert_all(m, h, step, ds.drop_last());
        insert_vector_model(p.0, p.1, step, ds.last())
    }
}

proof fn lemma_insert_all_shape(m: FixedModel, h: MemHelper, step: i64, ds: Seq<Seq<u8>>)
    requires
        ds.len() >= 1,
        step != m.insert_step,
        m.root is Some,
        m.nodes.len() < usize::MAX,
    ensures
        ({
            let w = insert_all(m, h, step, ds).0;
            let n = m.nodes.len();
            let ma = insert_target_pre(m, step);
            &&& w.nodes.len() == n + 1
            &&& w.nodes[n as int] == (ds, false)
            &&& w.root == ma.root
            &&& w.count == ma.count
            &&& w.insert_step == step
            &&& w.cur_insert == Some(n as usize)
            &&& w.load_step == m.load_step
            &&& w.keep == m.keep
        }),
    decreases ds.len(),
{
    let n = m.nodes.len();
    if ds.len() == 1 {
        assert(ds.drop_last().len() == 0);
        let ma = insert_target_pre(m, step);
        lemma_sweep_keeps(ma, h, 0);
        assert(referenced(ma, n as usize));
        let tg = insert_target(m, h, step);
        assert(tg.2 == n);
        assert(tg.0.nodes[n as int] == (Seq::<Seq<u8>>::empty(), false));
        assert(tg.0.nodes[n as int].0.push(ds.last()) =~= ds);
    } else {
        lemma_insert_all_shape(m, h, step, ds.drop_last());
        let p = insert_all(m, h, step, ds.drop_last());
        assert(insert_target(p.0, p.1, step) == (p.0, p.1, n as int));
        assert(ds.drop_last().push(ds.last()) =~= ds);
    }
}

/// What a load gives back of a sequence of writes: once the solutions
/// `ds` of a new step are stored in order, and the root table (well
/// formed, without the step's key) takes the step, a load of stage `k` of
/// that step returns the `k`-th solution stored, whether it peeks, keeps
/// or consumes.
pub proof fn law_insert_all_then_load(
    c: SUNAdjointCheckpointScheme_Fixed_Content,
    h: MemHelper,
    step: i64,
    ds: Seq<Seq<u8>>,
    stage: i64,
    peek: bool,
)
    requires
        c.wf(),
        step != c.step_num_of_current_insert,
        step != c.step_num_of_current_load,
        c.root_node matches Some(r) && wf_slots(r.slots()) && !has_key(r.slots(), step_key(step))
            && insert_within_limit(r.slots(), step_key(step), c.step_nodes.len()),
        0 <= stage < ds.len(),
        insert_vector_ok(c.model(), h, step, ds[0].len()),
    ensures
        ({
            let w = insert_all(c.model(), h, step, ds);
            &&& load_vector_model(w.0, w.1, step, stage, peek).2 == SUN_SUCCESS
            &&& load_vector_model(w.0, w.1, step, stage, peek).3 == Some(ds[stage as int])
        }),
{
    let m = c.model();
    let key = step_key(step);
    let s = m.root.unwrap();
    let n = m.nodes.len();
    law_insert_fresh(s, key, n as usize);
    let t = spec_insert(s, key, n as usize).0;
    crate::sundials_hashmap::lemma_insert_len(s, key, n as usize);
    law_get_is_lookup(t, key);
    lemma_insert_values(s, key, n as usize);
    lemma_insert_all_shape(m, h, step, ds);
    let w = insert_all(m, h, step, ds);
    assert(w.0.root == Some(t));
    assert(w.0.count != 0);
    assert(spec_get(t, key) == Some(n as usize));
    let mc = FixedModel { cur_load: Some(n as usize), load_step: step, ..w.0 };
    lemma_sweep_keeps(mc, w.1, 0);
    assert(referenced(mc, n as usize));
    let lt = load_target(w.0, w.1, step);
    assert(lt.2 == Some(n as usize));
    assert(lt.0.nodes[n as int] == w.0.nodes[n as int]);
}

/// A load that only peeks leaves the solution where it was: loading the
/// same solution of the same step again, peeking or not, gives the same
/// bytes.
pub proof fn law_peek_then_load(c: SUNAdjointCheckpointScheme_Fixed_Content, h: MemHelper, step: i64, stage: i64, peek2: bool)
    requires
        c.wf(),
        load_vector_ok(c.model(), h, step, stage, true),
        load_vector_model(c.model(), h, step, stage, true).2 == SUN_SUCCESS,
    ensures
        ({
            let r = load_vector_model(c.model(), h, step, stage, true);
            &&& load_vector_ok(r.0, r.1, step, stage, true)
            &&& load_vector_ok(r.0, r.1, step, stage, peek2) ==> load_vector_model(r.0, r.1, step, stage, peek2).2
                == SUN_SUCCESS && load_vector_model(r.0, r.1, step, stage, peek2).3 == r.3
        }),
{
    let m = c.model();
    let t = load_target(m, h, step);
    if step != m.load_step && m.count != 0 {
        let sl = m.root.unwrap();
        if spec_get(sl, step_key(step)) is Some {
            let j = spec_get(sl, step_key(step)).unwrap();
            lemma_get_found(sl, step_key(step));
            let m1 = FixedModel { cur_load: Some(j), load_step: step, ..m };
            lemma_sweep_keeps(m1, h, 0);
            lemma_sweep_bound(m1, h, 0);
            assert(referenced(m1, j));
            assert(!m.nodes[j as int].1);
        }
    }
}

/// Dense checkpointing saves every step, and turning it off again restores
/// the interval it was turned on over.
pub proof fn law_dense_round_trip(m: FixedModel, step: i64)
    ensures
        magnitude(step) % magnitude(enable_dense_model(m, true).interval) == 0,
        enable_dense_model(enable_dense_model(m, true), false).interval == m.interval,
        enable_dense_model(enable_dense_model(m, true), false) == (FixedModel { backup_interval: m.interval, ..m }),
{
}

proof fn lemma_sweep_idle(m: FixedModel, h: MemHelper, i: int)
    requires
        m.nodes.len() <= usize::MAX,
        forall|k: usize| k < m.nodes.len() && !#[trigger] m.nodes[k as int].1 ==> referenced(m, k),
    ensures
        sweep_from(m, h, i) == (m, h),
    decreases m.nodes.len() - i,
{
    if 0 <= i < m.nodes.len() {
        assert(!m.nodes[i].1 ==> referenced(m, i as usize));
        lemma_sweep_idle(m, h, i + 1);
    }
}

/// The preconditions under which storing the first solution of a new step
/// releases nothing: the current insert and load nodes are named in the
/// root table, which is well formed, lacks the step's key and takes it.
pub open spec fn quiet_insert(c: SUNAdjointCheckpointScheme_Fixed_Content, h: MemHelper, step: i64, len: nat) -> bool {
    &&& c.wf()
    &&& step != c.step_num_of_current_insert
    &&& step != c.step_num_of_current_load
    &&& c.current_insert_step_node matches Some(i) ==> in_root(c.model(), i)
    &&& c.current_load_step_node matches Some(i) ==> in_root(c.model(), i)
    &&& c.root_node matches Some(r) && wf_slots(r.slots()) && !has_key(r.slots(), step_key(step))
        && insert_within_limit(r.slots(), step_key(step), c.step_nodes.len())
    &&& insert_vector_ok(c.model(), h, step, len)
    &&& h.num_deallocations + leaf_total(c.model().nodes) + 1 < u64::MAX
}

proof fn lemma_insert_idle(c: SUNAdjointCheckpointScheme_Fixed_Content, h: MemHelper, step: i64, len: nat)
    requires
        quiet_insert(c, h, step, len),
    ensures
        ({
            let m = c.model();
            let ma = insert_target_pre(m, step);
            let n = m.nodes.len();
            &&& insert_target(m, h, step) == (ma, h, n as int)
            &&& ma.root matches Some(t) && spec_get(t, step_key(step)) == Some(n as usize)
                && 1 <= t.len()
            &&& ma.count != 0
            &&& ma.nodes.len() <= usize::MAX
            &&& ma.nodes[n as int] == (Seq::<Seq<u8>>::empty(), false)
            &&& forall|k: usize| k < ma.nodes.len() && !#[trigger] ma.nodes[k as int].1 ==> referenced(ma, k)
            &&& forall|k: usize| k < n && !#[trigger] ma.nodes[k as int].1 ==> in_root(ma, k)
        }),
{
    let m = c.model();
    let key = step_key(step);
    let s = m.root.unwrap();
    let n = m.nodes.len();
    law_insert_fresh(s, key, n as usize);
    crate::sundials_hashmap::lemma_insert_len(s, key, n as usize);
    let t = spec_insert(s, key, n as usize).0;
    law_get_is_lookup(t, key);
    let ma = insert_target_pre(m, step);
    assert forall|k: usize| k < n && !#[trigger] ma.nodes[k as int].1 implies in_root(ma, k) by {
        assert(!m.nodes[k as int].1);
        assert(referenced(m, k));
        assert(in_root(m, k));
        let p = choose|p: int| 0 <= p < s.len() && s[p] is Some && #[trigger] s[p].unwrap().1 == k;
        assert(holds_value(s, k));
        lemma_insert_keeps_values(s, key, n as usize, k);
        let r = choose|r: int| 0 <= r < t.len() && #[trigger] t[r] is Some && t[r].unwrap().1 == k;
    }
    assert forall|k: usize| k < ma.nodes.len() && !#[trigger] ma.nodes[k as int].1 implies referenced(ma, k) by {
        if k < n {
            assert(in_root(ma, k));
        }
    }
    lemma_sweep_idle(ma, h, 0);
}

/// Storing a solution and then consuming it gives the memory back: when
/// the current insert and load nodes are named in the root table, so that
/// no other node is released on the way, the helper ends with the bytes
/// allocated it started with, one more allocation, and one more
/// deallocation for a non-empty solution.
pub proof fn law_insert_then_consume_restores_memory(
    c: SUNAdjointCheckpointScheme_Fixed_Content,
    h: MemHelper,
    step: i64,
    data: Seq<u8>,
)
    requires
        quiet_insert(c, h, step, data.len()),
        !c.keep,
    ensures
        ({
            let w = insert_vector_model(c.model(), h, step, data);
            let r = load_vector_model(w.0, w.1, step, 0, false);
            &&& r.1.bytes_allocated == h.bytes_allocated
            &&& r.1.num_allocations == h.num_allocations + 1
            &&& r.1.num_deallocations == h.num_deallocations + if data.len() > 0 {
                1int
            } else {
                0int
            }
        }),
{
    let m = c.model();
    let key = step_key(step);
    let n = m.nodes.len();
    lemma_insert_idle(c, h, step, data.len());
    let ma = insert_target_pre(m, step);
    let t = ma.root.unwrap();
    let w = insert_vector_model(m, h, step, data);
    assert(w.1 == alloc_host(h, data.len()));
    assert(w.0 == FixedModel { nodes: ma.nodes.update(n as int, (seq![data], false)), ..ma }) by {
        assert(ma.nodes[n as int].0.push(data) =~= seq![data]);
    }
    let mc = FixedModel { cur_load: Some(n as usize), load_step: step, ..w.0 };
    assert forall|k: usize| k < mc.nodes.len() && !#[trigger] mc.nodes[k as int].1 implies referenced(mc, k) by {
        if k != n {
            assert(!ma.nodes[k as int].1);
            assert(in_root(ma, k));
        }
    }
    lemma_sweep_idle(mc, w.1, 0);
    assert(load_target(w.0, w.1, step) == (mc, w.1, Some(n as usize)));
    lemma_load_consume_one(mc, w.1, step, data);
}

proof fn lemma_load_consume_one(mc: FixedModel, hb: MemHelper, step: i64, data: Seq<u8>)
    requires
        mc.load_step == step,
        mc.cur_load matches Some(n) && n < mc.nodes.len() && mc.nodes[n as int] == (seq![data], false),
        mc.root matches Some(t) && 1 <= t.len() && spec_get(t, step_key(step)) == mc.cur_load,
        hb.bytes_allocated >= data.len(),
        hb.num_deallocations < u64::MAX,
    ensures
        ({
            let n = mc.cur_load.unwrap();
            let st = mc.nodes[n as int].0;
            let m2 = FixedModel { nodes: mc.nodes.update(n as int, (after_take(st, 0), false)), ..mc };
            let s = m2.root.unwrap();
            let f = spec_find(s, step_key(step));
            let m2b = FixedModel { root: Some(s.update(f, None)), count: (m2.count - 1) as i64, ..m2 };
            let r = destroy_node(m2b, hb, s[f].unwrap().1 as int);
            &&& release_leaf(r.1, st[0]).bytes_allocated == (hb.bytes_allocated - data.len())
            &&& release_leaf(r.1, st[0]).num_allocations == hb.num_allocations
            &&& release_leaf(r.1, st[0]).num_deallocations == hb.num_deallocations + if data.len() > 0 {
                1int
            } else {
                0int
            }
        }),
{
    let n = mc.cur_load.unwrap();
    let t = mc.root.unwrap();
    lemma_get_found(t, step_key(step));
    let f = spec_find(t, step_key(step));
    let j = t[f].unwrap().1;
    let st = mc.nodes[n as int].0;
    assert(after_take(st, 0) =~= Seq::<Seq<u8>>::empty());
    assert(j == n);
    assert(st[0] == data);
    let m2 = FixedModel { nodes: mc.nodes.update(n as int, (after_take(st, 0), false)), ..mc };
    assert(m2.root.unwrap() == t);
    let m2b = FixedModel { root: Some(t.update(f, None)), count: (m2.count - 1) as i64, ..m2 };
    assert(m2b.nodes[n as int].0 =~= Seq::<Seq<u8>>::empty());
    let r = destroy_node(m2b, hb, n as int);
    assert(r.1 == hb);
    if data.len() > 0 {
        assert(release_leaf(hb, data).bytes_allocated == hb.bytes_allocated - data.len());
    }
}

/// An insertion that succeeds keeps every value the buckets held.
proof fn lemma_insert_keeps_values(s: Seq<Slot<usize>>, key: Seq<char>, n: usize, k: usize)
    requires
        1 <= s.len() <= SUNHASHMAP_MAX_CAPACITY,
        wf_slots(s),
        !has_key(s, key),
        insert_within_limit(s, key, n),
        holds_value(s, k),
    ensures
        holds_value(spec_insert(s, key, n).0, k),
{
    let p = choose|p: int| 0 <= p < s.len() && #[trigger] s[p] is Some && s[p].unwrap().1 == k;
    let kk = s[p].unwrap().0;
    assert(has_key_at(s, p, kk));
    let q = choose|q: int| has_key_at(s, q, kk);
    assert(s[q] is Some && s[p] is Some);
    assert(q == p);
    assert(lookup(s, kk) == Some(k));
    if kk == key {
        assert(has_key(s, key));
    }
    law_insert_fresh(s, key, n);
    let t = spec_insert(s, key, n).0;
    assert(lookup(t, kk) == Some(k));
    assert(has_key(t, kk));
    let r = choose|r: int| has_key_at(t, r, kk);
    assert(t[r] is Some && t[r].unwrap().1 == k);
}

} // verus!
