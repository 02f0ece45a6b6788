use sundials_core::sunadjointcheckpointscheme_fixed::{
    SUNAdjointCheckpointScheme_Create_Fixed, SUNAdjointCheckpointScheme_Destroy_Fixed,
    SUNAdjointCheckpointScheme_EnableDense_Fixed, SUNAdjointCheckpointScheme_InsertVector_Fixed,
    SUNAdjointCheckpointScheme_LoadVector_Fixed, SUNAdjointCheckpointScheme_NeedsSaving_Fixed,
};
use sundials_core::sundials_errors::{SUN_ERR_CHECKPOINT_NOT_FOUND, SUN_SUCCESS};
use sundials_core::sundials_memory::SUNMemoryHelper_Sys;
use sundials_core::sundials_types::SUNDataIOMode;

fn needs_saving(c: &sundials_core::sunadjointcheckpointscheme_fixed::SUNAdjointCheckpointScheme_Fixed_Content, step: i64) -> bool {
    let mut yes = false;
    assert_eq!(SUNAdjointCheckpointScheme_NeedsSaving_Fixed(c, step, 0, &mut yes), SUN_SUCCESS);
    yes
}

#[test]
fn create_sets_up_an_empty_tree() {
    let c = SUNAdjointCheckpointScheme_Create_Fixed(SUNDataIOMode::SUNDATAIOMODE_INMEM, 3, 10, false);
    assert_eq!(c.interval, 3);
    assert_eq!(c.backup_interval, 3);
    assert_eq!(c.step_num_of_current_insert, -2);
    assert_eq!(c.step_num_of_current_load, -2);
    assert_eq!(c.num_named_children, 0);
    assert!(c.step_nodes.is_empty());
    assert_eq!(c.root_node.as_ref().unwrap().buckets.len(), 10);
    let bad = SUNAdjointCheckpointScheme_Create_Fixed(SUNDataIOMode::SUNDATAIOMODE_INMEM, 3, 0, false);
    assert!(bad.root_node.is_none());
}

#[test]
fn needs_saving_at_multiples_of_the_interval() {
    let c = SUNAdjointCheckpointScheme_Create_Fixed(SUNDataIOMode::SUNDATAIOMODE_INMEM, 3, 10, false);
    assert!(needs_saving(&c, 0));
    assert!(!needs_saving(&c, 1));
    assert!(!needs_saving(&c, 2));
    assert!(needs_saving(&c, 3));
    assert!(needs_saving(&c, 9));
    assert!(needs_saving(&c, -6));
    assert!(!needs_saving(&c, -7));
    let neg = SUNAdjointCheckpointScheme_Create_Fixed(SUNDataIOMode::SUNDATAIOMODE_INMEM, -4, 10, false);
    assert!(needs_saving(&neg, 8));
    assert!(!needs_saving(&neg, 6));
    assert!(needs_saving(&neg, i64::MIN));
}

#[test]
fn dense_mode_saves_every_step_and_restores_the_interval() {
    let mut c = SUNAdjointCheckpointScheme_Create_Fixed(SUNDataIOMode::SUNDATAIOMODE_INMEM, 5, 10, false);
    assert_eq!(SUNAdjointCheckpointScheme_EnableDense_Fixed(&mut c, true), SUN_SUCCESS);
    assert_eq!(c.interval, 1);
    assert_eq!(c.backup_interval, 5);
    assert!(needs_saving(&c, 7));
    assert_eq!(SUNAdjointCheckpointScheme_EnableDense_Fixed(&mut c, false), SUN_SUCCESS);
    assert_eq!(c.interval, 5);
    assert!(!needs_saving(&c, 7));
    // turning it off without turning it on first keeps the interval
    assert_eq!(SUNAdjointCheckpointScheme_EnableDense_Fixed(&mut c, false), SUN_SUCCESS);
    assert_eq!(c.interval, 5);
}

#[test]
fn consuming_loads_return_what_was_stored_and_free_it() {
    let mut h = SUNMemoryHelper_Sys();
    let mut c = SUNAdjointCheckpointScheme_Create_Fixed(SUNDataIOMode::SUNDATAIOMODE_INMEM, 1, 10, false);
    assert_eq!(SUNAdjointCheckpointScheme_InsertVector_Fixed(&mut c, &mut h, 0, 0, vec![1, 2, 3]), SUN_SUCCESS);
    assert_eq!(SUNAdjointCheckpointScheme_InsertVector_Fixed(&mut c, &mut h, 0, 1, vec![4, 5]), SUN_SUCCESS);
    assert_eq!(SUNAdjointCheckpointScheme_InsertVector_Fixed(&mut c, &mut h, 1, 0, vec![6]), SUN_SUCCESS);
    assert_eq!(c.num_named_children, 2);
    assert_eq!(h.num_allocations, 3);
    assert_eq!(h.bytes_allocated, 6);

    let mut out = Vec::new();
    // stages of step 1, then step 0, last stage first
    assert_eq!(SUNAdjointCheckpointScheme_LoadVector_Fixed(&mut c, &mut h, 1, 0, false, &mut out), SUN_SUCCESS);
    assert_eq!(out, vec![6]);
    assert_eq!(c.num_named_children, 1);
    assert_eq!(SUNAdjointCheckpointScheme_LoadVector_Fixed(&mut c, &mut h, 0, 1, false, &mut out), SUN_SUCCESS);
    assert_eq!(out, vec![4, 5]);
    assert_eq!(SUNAdjointCheckpointScheme_LoadVector_Fixed(&mut c, &mut h, 0, 0, false, &mut out), SUN_SUCCESS);
    assert_eq!(out, vec![1, 2, 3]);
    assert_eq!(c.num_named_children, 0);
    assert_eq!(h.num_deallocations, 3);
    assert_eq!(h.bytes_allocated, 0);
    assert_eq!(h.bytes_high_watermark, 6);
}

#[test]
fn missing_checkpoints_are_reported() {
    let mut h = SUNMemoryHelper_Sys();
    let mut c = SUNAdjointCheckpointScheme_Create_Fixed(SUNDataIOMode::SUNDATAIOMODE_INMEM, 1, 10, true);
    let mut out = vec![9];
    // nothing stored yet
    assert_eq!(
        SUNAdjointCheckpointScheme_LoadVector_Fixed(&mut c, &mut h, 4, 0, false, &mut out),
        SUN_ERR_CHECKPOINT_NOT_FOUND
    );
    assert_eq!(out, vec![9]);
    assert_eq!(SUNAdjointCheckpointScheme_InsertVector_Fixed(&mut c, &mut h, 4, 0, vec![1]), SUN_SUCCESS);
    // an unknown step, and a stage the step does not hold
    assert_eq!(
        SUNAdjointCheckpointScheme_LoadVector_Fixed(&mut c, &mut h, 5, 0, false, &mut out),
        SUN_ERR_CHECKPOINT_NOT_FOUND
    );
    assert_eq!(
        SUNAdjointCheckpointScheme_LoadVector_Fixed(&mut c, &mut h, 4, 3, false, &mut out),
        SUN_ERR_CHECKPOINT_NOT_FOUND
    );
    assert_eq!(
        SUNAdjointCheckpointScheme_LoadVector_Fixed(&mut c, &mut h, 4, -1, false, &mut out),
        SUN_ERR_CHECKPOINT_NOT_FOUND
    );
    assert_eq!(out, vec![9]);
}

#[test]
fn kept_and_peeked_checkpoints_stay() {
    let mut h = SUNMemoryHelper_Sys();
    let mut c = SUNAdjointCheckpointScheme_Create_Fixed(SUNDataIOMode::SUNDATAIOMODE_INMEM, 1, 10, true);
    SUNAdjointCheckpointScheme_InsertVector_Fixed(&mut c, &mut h, 2, 0, vec![7, 7]);
    let mut out = Vec::new();
    for _ in 0..3 {
        assert_eq!(SUNAdjointCheckpointScheme_LoadVector_Fixed(&mut c, &mut h, 2, 0, false, &mut out), SUN_SUCCESS);
        assert_eq!(out, vec![7, 7]);
    }
    assert_eq!(h.num_deallocations, 0);

    let mut d = SUNAdjointCheckpointScheme_Create_Fixed(SUNDataIOMode::SUNDATAIOMODE_INMEM, 1, 10, false);
    SUNAdjointCheckpointScheme_InsertVector_Fixed(&mut d, &mut h, 2, 0, vec![8]);
    assert_eq!(SUNAdjointCheckpointScheme_LoadVector_Fixed(&mut d, &mut h, 2, 0, true, &mut out), SUN_SUCCESS);
    assert_eq!(out, vec![8]);
    assert_eq!(SUNAdjointCheckpointScheme_LoadVector_Fixed(&mut d, &mut h, 2, 0, false, &mut out), SUN_SUCCESS);
    assert_eq!(out, vec![8]);
    assert_eq!(d.num_named_children, 0);
}

#[test]
fn destroy_releases_everything_still_stored() {
    let mut h = SUNMemoryHelper_Sys();
    let mut c = SUNAdjointCheckpointScheme_Create_Fixed(SUNDataIOMode::SUNDATAIOMODE_INMEM, 1, 10, true);
    SUNAdjointCheckpointScheme_InsertVector_Fixed(&mut c, &mut h, 0, 0, vec![1, 1]);
    SUNAdjointCheckpointScheme_InsertVector_Fixed(&mut c, &mut h, 1, 0, vec![2, 2, 2]);
    assert_eq!(h.bytes_allocated, 5);
    let mut scheme = Some(c);
    assert_eq!(SUNAdjointCheckpointScheme_Destroy_Fixed(&mut scheme, &mut h), SUN_SUCCESS);
    assert!(scheme.is_none());
    assert_eq!(h.num_deallocations, 2);
    assert_eq!(h.bytes_allocated, 0);
}

#[test]
fn a_step_stored_again_is_refused_by_the_root_table() {
    let mut h = SUNMemoryHelper_Sys();
    let mut c = SUNAdjointCheckpointScheme_Create_Fixed(SUNDataIOMode::SUNDATAIOMODE_INMEM, 1, 10, true);
    SUNAdjointCheckpointScheme_InsertVector_Fixed(&mut c, &mut h, 3, 0, vec![1]);
    SUNAdjointCheckpointScheme_InsertVector_Fixed(&mut c, &mut h, 4, 0, vec![2]);
    SUNAdjointCheckpointScheme_InsertVector_Fixed(&mut c, &mut h, 3, 0, vec![3]);
    // the step's key sits in its home bucket, so the new node is refused
    // and, once no longer the current insert node, released
    assert_eq!(c.num_named_children, 2);
    SUNAdjointCheckpointScheme_InsertVector_Fixed(&mut c, &mut h, 5, 0, vec![4]);
    assert!(c.step_nodes[2].destroyed);
    assert_eq!(h.num_deallocations, 1);
    let mut out = Vec::new();
    assert_eq!(SUNAdjointCheckpointScheme_LoadVector_Fixed(&mut c, &mut h, 3, 0, true, &mut out), SUN_SUCCESS);
    assert_eq!(out, vec![1]);
}
