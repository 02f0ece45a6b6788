use sundials_core::sundials_errors::SUN_SUCCESS;
use sundials_core::sundials_memory::{
    SUNMemoryHelper_Alias, SUNMemoryHelper_AllocStrided_Sys, SUNMemoryHelper_Alloc_Sys,
    SUNMemoryHelper_Copy_Sys, SUNMemoryHelper_Dealloc_Sys, SUNMemoryHelper_GetAllocStats_Sys,
    SUNMemoryHelper_Sys, SUNMemoryHelper_Wrap, SUNMemoryNewEmpty, SUNMemoryType,
};

fn stats(h: &sundials_core::sundials_memory::SUNMemoryHelper_Content_Sys) -> (u64, u64, usize, usize) {
    let (mut a, mut d, mut b, mut w) = (0u64, 0u64, 0usize, 0usize);
    let err = SUNMemoryHelper_GetAllocStats_Sys(
        h,
        SUNMemoryType::SUNMEMTYPE_HOST,
        &mut a,
        &mut d,
        &mut b,
        &mut w,
    );
    assert_eq!(err, SUN_SUCCESS);
    (a, d, b, w)
}

#[test]
fn new_empty_has_no_buffer() {
    let m = SUNMemoryNewEmpty();
    assert!(m.data.is_empty());
    assert_eq!(m.type_, SUNMemoryType::SUNMEMTYPE_HOST);
    assert!(!m.own);
    assert_eq!(m.bytes, 0);
    assert_eq!(m.stride, 1);
}

#[test]
fn wrap_and_alias_do_not_own() {
    let w = SUNMemoryHelper_Wrap(vec![1, 2, 3], SUNMemoryType::SUNMEMTYPE_DEVICE);
    assert_eq!(w.data, vec![1, 2, 3]);
    assert_eq!(w.type_, SUNMemoryType::SUNMEMTYPE_DEVICE);
    assert!(!w.own);
    let a = SUNMemoryHelper_Alias(&w);
    assert_eq!(a.data, vec![1, 2, 3]);
    assert_eq!(a.type_, SUNMemoryType::SUNMEMTYPE_DEVICE);
    assert!(!a.own);
}

#[test]
fn host_allocation_is_counted_and_zeroed() {
    let mut h = SUNMemoryHelper_Sys();
    assert_eq!(stats(&h), (0, 0, 0, 0));
    let mut m = None;
    let err = SUNMemoryHelper_Alloc_Sys(&mut h, &mut m, 16, SUNMemoryType::SUNMEMTYPE_HOST);
    assert_eq!(err, SUN_SUCCESS);
    let m = m.unwrap();
    assert_eq!(m.data, vec![0u8; 16]);
    assert!(m.own);
    assert_eq!(m.bytes, 16);
    assert_eq!(m.stride, 1);
    assert_eq!(stats(&h), (1, 0, 16, 16));
}

#[test]
fn device_allocation_is_not_counted() {
    let mut h = SUNMemoryHelper_Sys();
    let mut m = None;
    let err = SUNMemoryHelper_Alloc_Sys(&mut h, &mut m, 32, SUNMemoryType::SUNMEMTYPE_DEVICE);
    assert_eq!(err, SUN_SUCCESS);
    let m = m.unwrap();
    assert!(m.data.is_empty());
    assert_eq!(m.bytes, 32);
    assert!(m.own);
    assert_eq!(stats(&h), (0, 0, 0, 0));
    assert_eq!(SUNMemoryHelper_Dealloc_Sys(&mut h, Some(m)), SUN_SUCCESS);
    assert_eq!(stats(&h), (0, 0, 0, 0));
}

#[test]
fn alloc_then_dealloc_restores_total_and_keeps_watermark() {
    let mut h = SUNMemoryHelper_Sys();
    let mut m1 = None;
    let mut m2 = None;
    SUNMemoryHelper_Alloc_Sys(&mut h, &mut m1, 10, SUNMemoryType::SUNMEMTYPE_HOST);
    SUNMemoryHelper_Alloc_Sys(&mut h, &mut m2, 5, SUNMemoryType::SUNMEMTYPE_UVM);
    assert_eq!(stats(&h), (2, 0, 15, 15));
    assert_eq!(SUNMemoryHelper_Dealloc_Sys(&mut h, m2), SUN_SUCCESS);
    assert_eq!(stats(&h), (2, 1, 10, 15));
    assert_eq!(SUNMemoryHelper_Dealloc_Sys(&mut h, m1), SUN_SUCCESS);
    assert_eq!(stats(&h), (2, 2, 0, 15));
}

#[test]
fn watermark_only_rises() {
    let mut h = SUNMemoryHelper_Sys();
    let mut m = None;
    SUNMemoryHelper_Alloc_Sys(&mut h, &mut m, 8, SUNMemoryType::SUNMEMTYPE_HOST);
    SUNMemoryHelper_Dealloc_Sys(&mut h, m);
    let mut m = None;
    SUNMemoryHelper_Alloc_Sys(&mut h, &mut m, 4, SUNMemoryType::SUNMEMTYPE_HOST);
    assert_eq!(stats(&h), (2, 1, 4, 8));
}

#[test]
fn dealloc_skips_unowned_and_empty() {
    let mut h = SUNMemoryHelper_Sys();
    let w = SUNMemoryHelper_Wrap(vec![9; 4], SUNMemoryType::SUNMEMTYPE_HOST);
    assert_eq!(SUNMemoryHelper_Dealloc_Sys(&mut h, Some(w)), SUN_SUCCESS);
    assert_eq!(SUNMemoryHelper_Dealloc_Sys(&mut h, None), SUN_SUCCESS);
    let mut m = None;
    SUNMemoryHelper_Alloc_Sys(&mut h, &mut m, 0, SUNMemoryType::SUNMEMTYPE_HOST);
    assert_eq!(stats(&h), (1, 0, 0, 0));
    assert_eq!(SUNMemoryHelper_Dealloc_Sys(&mut h, m), SUN_SUCCESS);
    assert_eq!(stats(&h), (1, 0, 0, 0));
}

#[test]
fn strided_allocation_records_stride() {
    let mut h = SUNMemoryHelper_Sys();
    let mut m = None;
    let err = SUNMemoryHelper_AllocStrided_Sys(&mut h, &mut m, 12, 3, SUNMemoryType::SUNMEMTYPE_HOST);
    assert_eq!(err, SUN_SUCCESS);
    let m = m.unwrap();
    assert_eq!(m.stride, 3);
    assert_eq!(m.bytes, 12);
    assert_eq!(m.data.len(), 12);
    assert_eq!(stats(&h), (1, 0, 12, 12));
}

#[test]
fn copy_overwrites_a_prefix() {
    let src = SUNMemoryHelper_Wrap(vec![1, 2, 3, 4], SUNMemoryType::SUNMEMTYPE_HOST);
    let mut dst = SUNMemoryHelper_Wrap(vec![9, 9, 9, 9, 9], SUNMemoryType::SUNMEMTYPE_HOST);
    assert_eq!(SUNMemoryHelper_Copy_Sys(&mut dst, &src, 3), SUN_SUCCESS);
    assert_eq!(dst.data, vec![1, 2, 3, 9, 9]);
    assert_eq!(SUNMemoryHelper_Copy_Sys(&mut dst, &src, 0), SUN_SUCCESS);
    assert_eq!(dst.data, vec![1, 2, 3, 9, 9]);
}
