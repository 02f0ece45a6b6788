use vstd::prelude::*;
use crate::sundials_errors::SUN_SUCCESS;
use crate::sundials_types::{SUNErrCode, SUNFALSE, SUNTRUE, sunbooleantype};

verus! {

/// Where a block of memory lives.
#[derive(Debug, Clone, Copy, PartialEq, Eq, Structural)]
pub enum SUNMemoryType {
    /// pageable memory accessible on the host
    SUNMEMTYPE_HOST,
    /// page-locked memory accessible on the host
    SUNMEMTYPE_PINNED,
    /// memory accessible from the device
    SUNMEMTYPE_DEVICE,
    /// memory accessible from the host or device
    SUNMEMTYPE_UVM,
}

/// A block of memory with its type and ownership: an empty buffer stands
/// for a NULL pointer.
pub struct SUNMemory_ {
    pub data: Vec<u8>,
    pub type_: SUNMemoryType,
    pub own: sunbooleantype,
    pub bytes: usize,
    pub stride: usize,
}

pub type SUNMemory = SUNMemory_;

/// The bookkeeping of the system memory helper.
#[derive(Clone, Copy, PartialEq, Eq, Structural)]
pub struct SUNMemoryHelper_Content_Sys_ {
    pub num_allocations: u64,
    pub num_deallocations: u64,
    pub bytes_allocated: usize,
    pub bytes_high_watermark: usize,
}

pub type SUNMemoryHelper_Content_Sys = SUNMemoryHelper_Content_Sys_;

/// The helper allocates the buffer itself for this memory type.
pub open spec fn host_visible(t: SUNMemoryType) -> bool {
    t == SUNMemoryType::SUNMEMTYPE_HOST || t == SUNMemoryType::SUNMEMTYPE_UVM
}

/// A helper's counts after allocating `size` bytes of type `t`: host and
/// unified memory is counted, with the high-water mark raised to the new
/// total when that passes it; other types leave the counts alone.
pub open spec fn after_alloc(
    h0: SUNMemoryHelper_Content_Sys_,
    h1: SUNMemoryHelper_Content_Sys_,
    size: usize,
    t: SUNMemoryType,
) -> bool {
    if host_visible(t) {
        &&& h1.bytes_allocated == h0.bytes_allocated + size
        &&& h1.num_allocations == h0.num_allocations + 1
        &&& h1.num_deallocations == h0.num_deallocations
        &&& h1.bytes_high_watermark == if h1.bytes_allocated > h0.bytes_high_watermark {
            h1.bytes_allocated
        } else {
            h0.bytes_high_watermark
        }
    } else {
        h1 == h0
    }
}

/// The object an allocation of `size` bytes of type `t` yields: owned, of
/// that type and size, unit stride, with a zeroed buffer for host and
/// unified memory and none otherwise.
pub open spec fn allocated_as(m: Option<SUNMemory_>, size: usize, t: SUNMemoryType) -> bool {
    &&& m is Some
    &&& m.unwrap().own == SUNTRUE
    &&& m.unwrap().type_ == t
    &&& m.unwrap().bytes == size
    &&& m.unwrap().stride == 1
    &&& m.unwrap().data@ == if host_visible(t) {
        Seq::new(size as nat, |i: int| 0u8)
    } else {
        Seq::<u8>::empty()
    }
}

/// The helper frees and counts the buffer of `m`.
pub open spec fn counted_release(m: Option<SUNMemory_>) -> bool {
    m matches Some(mm) && mm.data@.len() > 0 && mm.own && host_visible(mm.type_)
}

/// A helper's counts after releasing `m`: a counted release adds a
/// deallocation and takes the object's bytes off the total (wrapping around on
/// underflow); otherwise nothing changes.
pub open spec fn after_dealloc(
    h0: SUNMemoryHelper_Content_Sys_,
    h1: SUNMemoryHelper_Content_Sys_,
    m: Option<SUNMemory_>,
) -> bool {
    if counted_release(m) {
        &&& h1.num_deallocations == h0.num_deallocations + 1
        &&& h1.bytes_allocated == vstd::wrapping::usize_specs::wrapping_sub(
            h0.bytes_allocated,
            m.unwrap().bytes,
        )
        &&& h1.num_allocations == h0.num_allocations
        &&& h1.bytes_high_watermark == h0.bytes_high_watermark
    } else {
        h1 == h0
    }
}

/// A memory object with no buffer, no bytes and unit stride.
pub fn SUNMemoryNewEmpty() -> (m: SUNMemory)
    ensures
        m.data@.len() == 0,
        m.type_ == SUNMemoryType::SUNMEMTYPE_HOST,
        m.own == SUNFALSE,
        m.bytes == 0,
        m.stride == 1,
{
    SUNMemory_ { data: Vec::new(), type_: SUNMemoryType::SUNMEMTYPE_HOST, own: SUNFALSE, bytes: 0, stride: 1 }
}

/// A memory object over a copy of `mem`'s bytes that does not own them.
pub fn SUNMemoryHelper_Alias(mem: &SUNMemory) -> (a: SUNMemory)
    ensures
        a.data@ == mem.data@,
        a.type_ == mem.type_,
        a.own == SUNFALSE,
        a.bytes == 0,
        a.stride == 1,
{
    let mut a = SUNMemoryNewEmpty();
    a.data = mem.data.clone();
    a.type_ = mem.type_;
    a.own = SUNFALSE;
    a
}

/// A memory object over the caller's bytes, not owned by the helper.
pub fn SUNMemoryHelper_Wrap(ptr: Vec<u8>, mem_type: SUNMemoryType) -> (m: SUNMemory)
    ensures
        m.data@ == ptr@,
        m.type_ == mem_type,
        m.own == SUNFALSE,
        m.bytes == 0,
        m.stride == 1,
{
    let mut m = SUNMemoryNewEmpty();
    m.data = ptr;
    m.own = SUNFALSE;
    m.type_ = mem_type;
    m
}

/// A fresh system memory helper: nothing allocated yet.
pub fn SUNMemoryHelper_Sys() -> (h: SUNMemoryHelper_Content_Sys)
    ensures
        h.num_allocations == 0,
        h.num_deallocations == 0,
        h.bytes_allocated == 0,
        h.bytes_high_watermark == 0,
{
    SUNMemoryHelper_Content_Sys_ {
        num_allocations: 0,
        num_deallocations: 0,
        bytes_allocated: 0,
        bytes_high_watermark: 0,
    }
}

/// Allocate `mem_size` bytes of type `mem_type` into `*memptr`: the object
/// owns its buffer; for host and unified memory the helper allocates a
/// zeroed buffer and counts the allocation, its bytes and the high-water
/// mark; other types get no buffer here.
pub fn SUNMemoryHelper_Alloc_Sys(
    helper: &mut SUNMemoryHelper_Content_Sys,
    memptr: &mut Option<SUNMemory>,
    mem_size: usize,
    mem_type: SUNMemoryType,
) -> (err: SUNErrCode)
    requires
        host_visible(mem_type) ==> old(helper).bytes_allocated + mem_size <= usize::MAX
            && old(helper).num_allocations < u64::MAX,
    ensures
        err == SUN_SUCCESS,
        allocated_as(*final(memptr), mem_size, mem_type),
        after_alloc(*old(helper), *final(helper), mem_size, mem_type),
{
    let mut m = SUNMemoryNewEmpty();
    m.own = SUNTRUE;
    m.type_ = mem_type;
    m.bytes = mem_size;
    if mem_type == SUNMemoryType::SUNMEMTYPE_HOST || mem_type == SUNMemoryType::SUNMEMTYPE_UVM {
        m.data = vec![0u8; mem_size];
        helper.bytes_allocated = helper.bytes_allocated + mem_size;
        helper.num_allocations = helper.num_allocations + 1;
        helper.bytes_high_watermark = if helper.bytes_allocated > helper.bytes_high_watermark {
            helper.bytes_allocated
        } else {
            helper.bytes_high_watermark
        };
        assert(m.data@ =~= Seq::new(mem_size as nat, |i: int| 0u8));
    } else {
        assert(m.data@ =~= Seq::<u8>::empty());
    }
    *memptr = Some(m);
    SUN_SUCCESS
}

/// As `SUNMemoryHelper_Alloc_Sys`, recording `stride` on the new object.
pub fn SUNMemoryHelper_AllocStrided_Sys(
    helper: &mut SUNMemoryHelper_Content_Sys,
    memptr: &mut Option<SUNMemory>,
    mem_size: usize,
    stride: usize,
    mem_type: SUNMemoryType,
) -> (err: SUNErrCode)
    requires
        host_visible(mem_type) ==> old(helper).bytes_allocated + mem_size <= usize::MAX
            && old(helper).num_allocations < u64::MAX,
    ensures
        err == SUN_SUCCESS,
        *final(memptr) matches Some(m) && m.own == SUNTRUE && m.type_ == mem_type && m.bytes
            == mem_size && m.stride == stride && m.data@ == if host_visible(mem_type) {
            Seq::new(mem_size as nat, |i: int| 0u8)
        } else {
            Seq::<u8>::empty()
        },
        after_alloc(*old(helper), *final(helper), mem_size, mem_type),
{
    let _ = SUNMemoryHelper_Alloc_Sys(helper, memptr, mem_size, mem_type);
    let mut m = memptr.take().unwrap();
    m.stride = stride;
    *memptr = Some(m);
    SUN_SUCCESS
}

/// Release `mem`: a non-empty buffer the object owns, of host or unified
/// memory, is freed and counted as a deallocation, its bytes taken off the
/// running total (wrapping around on underflow).
pub fn SUNMemoryHelper_Dealloc_Sys(helper: &mut SUNMemoryHelper_Content_Sys, mem: Option<SUNMemory>) -> (err: SUNErrCode)
    requires
        counted_release(mem) ==> old(helper).num_deallocations < u64::MAX,
    ensures
        err == SUN_SUCCESS,
        after_dealloc(*old(helper), *final(helper), mem),
{
    let m = match mem {
        None => return SUN_SUCCESS,
        Some(m) => m,
    };
    if m.data.len() > 0 && m.own {
        if m.type_ == SUNMemoryType::SUNMEMTYPE_HOST || m.type_ == SUNMemoryType::SUNMEMTYPE_UVM {
            helper.num_deallocations = helper.num_deallocations + 1;
            helper.bytes_allocated = helper.bytes_allocated.wrapping_sub(m.bytes);
        }
    }
    SUN_SUCCESS
}

/// Copy the first `memory_size` bytes of `src` over those of `dst`.
pub fn SUNMemoryHelper_Copy_Sys(dst: &mut SUNMemory, src: &SUNMemory, memory_size: usize) -> (err: SUNErrCode)
    requires
        memory_size <= old(dst).data@.len(),
        memory_size <= src.data@.len(),
    ensures
        err == SUN_SUCCESS,
        final(dst).data@ == src.data@.subrange(0, memory_size as int) + old(dst).data@.subrange(
            memory_size as int,
            old(dst).data@.len() as int,
        ),
        final(dst).type_ == old(dst).type_,
        final(dst).own == old(dst).own,
        final(dst).bytes == old(dst).bytes,
        final(dst).stride == old(dst).stride,
{
    let mut i: usize = 0;
    while i < memory_size
        invariant
            memory_size <= dst.data@.len(),
            memory_size <= src.data@.len(),
            dst.data@.len() == old(dst).data@.len(),
            0 <= i <= memory_size,
            forall|j: int| 0 <= j < i ==> dst.data@[j] == src.data@[j],
            forall|j: int| i <= j < dst.data@.len() ==> dst.data@[j] == old(dst).data@[j],
            dst.type_ == old(dst).type_,
            dst.own == old(dst).own,
            dst.bytes == old(dst).bytes,
            dst.stride == old(dst).stride,
        decreases memory_size - i,
    {
        let b = src.data[i];
        dst.data.set(i, b);
        i = i + 1;
    }
    assert(dst.data@ =~= src.data@.subrange(0, memory_size as int) + old(dst).data@.subrange(
        memory_size as int,
        old(dst).data@.len() as int,
    ));
    SUN_SUCCESS
}

/// The helper's counts: allocations, deallocations, bytes currently
/// allocated, and the most bytes allocated at once.
pub fn SUNMemoryHelper_GetAllocStats_Sys(
    helper: &SUNMemoryHelper_Content_Sys,
    mem_type: SUNMemoryType,
    num_allocations: &mut u64,
    num_deallocations: &mut u64,
    bytes_allocated: &mut usize,
    bytes_high_watermark: &mut usize,
) -> (err: SUNErrCode)
    ensures
        err == SUN_SUCCESS,
        *final(num_allocations) == helper.num_allocations,
        *final(num_deallocations) == helper.num_deallocations,
        *final(bytes_allocated) == helper.bytes_allocated,
        *final(bytes_high_watermark) == helper.bytes_high_watermark,
{
    *num_allocations = helper.num_allocations;
    *num_deallocations = helper.num_deallocations;
    *bytes_allocated = helper.bytes_allocated;
    *bytes_high_watermark = helper.bytes_high_watermark;
    SUN_SUCCESS
}

/// Allocating host or unified memory and releasing the object again
/// restores the bytes allocated, counts one allocation and one
/// deallocation, and leaves the high-water mark at least the peak total.
pub proof fn law_alloc_then_dealloc(
    h0: SUNMemoryHelper_Content_Sys_,
    h1: SUNMemoryHelper_Content_Sys_,
    h2: SUNMemoryHelper_Content_Sys_,
    m: Option<SUNMemory_>,
    size: usize,
    t: SUNMemoryType,
)
    requires
        host_visible(t),
        size > 0,
        h0.bytes_allocated + size <= usize::MAX,
        after_alloc(h0, h1, size, t),
        allocated_as(m, size, t),
        after_dealloc(h1, h2, m),
    ensures
        h2.bytes_allocated == h0.bytes_allocated,
        h2.num_allocations == h0.num_allocations + 1,
        h2.num_deallocations == h0.num_deallocations + 1,
        h2.bytes_high_watermark >= h0.bytes_allocated + size,
        h2.bytes_high_watermark >= h0.bytes_high_watermark,
{
    assert(counted_release(m));
}

/// The high-water mark never falls below the bytes allocated: allocations
/// keep it so, and so do releases of objects whose bytes are counted in the
/// total.
pub proof fn law_watermark_bounds_total(
    h0: SUNMemoryHelper_Content_Sys_,
    h1: SUNMemoryHelper_Content_Sys_,
    size: usize,
    t: SUNMemoryType,
    m: Option<SUNMemory_>,
    h2: SUNMemoryHelper_Content_Sys_,
)
    requires
        h0.bytes_high_watermark >= h0.bytes_allocated,
        after_alloc(h0, h1, size, t),
        counted_release(m) ==> m.unwrap().bytes <= h1.bytes_allocated,
        after_dealloc(h1, h2, m),
    ensures
        h1.bytes_high_watermark >= h1.bytes_allocated,
        h2.bytes_high_watermark >= h2.bytes_allocated,
{
}

} // verus!
