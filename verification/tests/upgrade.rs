use milli::upgrade::{
    version_lt, Latest_V1_13_To_Latest_V1_14, UpgradeAction, UpgradePipeline, VectorStorePhase,
};

#[test]
fn version_order_is_lexicographic() {
    assert!(version_lt((1, 13, 9), (1, 14, 0)));
    assert!(version_lt((1, 14, 0), (2, 0, 0)));
    assert!(version_lt((1, 14, 0), (1, 14, 1)));
    assert!(!version_lt((1, 14, 0), (1, 14, 0)));
    assert!(!version_lt((2, 0, 0), (1, 99, 99)));
}

#[test]
fn unsorted_chain_is_rejected() {
    assert!(UpgradePipeline::new((1, 0, 0), vec![(1, 14, 0), (1, 13, 0)]).is_none());
    assert!(UpgradePipeline::new((1, 0, 0), vec![(1, 14, 0), (1, 14, 0)]).is_none());
}

#[test]
fn noop_run_selects_zero_steps() {
    // A store already at the current version: zero transactions, version
    // record untouched.
    let p = UpgradePipeline::new((1, 14, 0), vec![(1, 13, 0), (1, 14, 0)]).unwrap();
    assert!(p.is_complete());
    assert_eq!(p.next_target(), None);
    assert_eq!(p.recorded_version(), (1, 14, 0));
    assert!(!p.must_regenerate());
    assert!(!p.has_failed());
}

#[test]
fn single_step_run_advances_the_record() {
    // Store recorded at 1.13.0, one step targeting 1.14.0 that migrates the
    // vector collection's encoding; its reindex signal is the aggregate.
    let step = Latest_V1_13_To_Latest_V1_14;
    let mut p = UpgradePipeline::new((1, 13, 0), vec![step.target_version()]).unwrap();
    assert!(!p.is_complete());
    assert_eq!(p.next_target(), Some((1, 14, 0)));
    p.step_committed(step.needs_reindexing());
    assert!(p.is_complete());
    assert_eq!(p.recorded_version(), (1, 14, 0));
    assert!(!p.must_regenerate());
}

#[test]
fn satisfied_prefix_is_skipped() {
    let chain = vec![(1, 12, 0), (1, 13, 0), (1, 14, 0)];
    let mut p = UpgradePipeline::new((1, 12, 3), chain).unwrap();
    assert_eq!(p.next_target(), Some((1, 13, 0)));
    p.step_committed(false);
    assert_eq!(p.recorded_version(), (1, 13, 0));
    assert_eq!(p.next_target(), Some((1, 14, 0)));
    p.step_committed(true);
    assert_eq!(p.recorded_version(), (1, 14, 0));
    assert!(p.is_complete());
    // The aggregate signal is the OR of the committed steps' signals.
    assert!(p.must_regenerate());
}

#[test]
fn failed_step_leaves_the_record() {
    let mut p = UpgradePipeline::new((1, 13, 0), vec![(1, 14, 0)]).unwrap();
    p.step_failed();
    assert!(p.has_failed());
    assert_eq!(p.recorded_version(), (1, 13, 0));
    assert!(!p.is_complete());
    assert!(!p.must_regenerate());
}

#[test]
fn vector_store_step_describes_itself() {
    let step = Latest_V1_13_To_Latest_V1_14;
    assert_eq!(step.target_version(), (1, 14, 0));
    assert_eq!(step.action(), UpgradeAction::MigrateVectorStoreFormat5To6);
    assert!(!step.needs_reindexing());
    assert_eq!(step.sub_phases(), vec![VectorStorePhase::UpdateInternalVersions]);
}
