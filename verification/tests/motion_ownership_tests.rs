use sidereal_client::motion_ownership::{
    mark_motion_ownership_dirty, plan_motion_ownership, select_motion_target, MotionEntityAction, MotionEntityView,
    MotionOwnershipReconcileState, MotionTargetDecision, NearbyCollisionProxyTuning, TargetBodyChange,
};

fn root(bits: u64, guid: u128) -> MotionEntityView {
    MotionEntityView {
        entity_bits: bits,
        controlled: false,
        mounted: false,
        has_hardpoint: false,
        has_player_tag: false,
        guid: Some(guid),
        has_size: true,
        has_positive_mass: true,
        collidable: true,
        has_rigidbody: false,
        interpolation_history_ready: true,
        is_suppressed: false,
        is_predicted: false,
        is_interpolated: true,
    }
}

fn tuning(max_proxies: usize) -> NearbyCollisionProxyTuning {
    NearbyCollisionProxyTuning { max_proxies, reconcile_interval_ms: 100 }
}

#[test]
fn reconciliation_runs_when_dirty_or_due() {
    let mut st = MotionOwnershipReconcileState::new();
    let es = vec![root(1, 7)];
    let id = Some("ship".to_string());
    assert!(matches!(select_motion_target(&mut st, tuning(0), &es, &id, Some(7), None, false, 5000), MotionTargetDecision::Skip));
    mark_motion_ownership_dirty(&mut st, true);
    assert!(matches!(select_motion_target(&mut st, tuning(0), &es, &id, Some(7), None, true, 5000), MotionTargetDecision::Skip));
    assert!(matches!(
        select_motion_target(&mut st, tuning(0), &es, &None, None, None, false, 5000),
        MotionTargetDecision::NoTarget
    ));
    let mut clean = MotionOwnershipReconcileState::new();
    assert!(!matches!(select_motion_target(&mut clean, tuning(2), &es, &id, Some(7), None, false, 100), MotionTargetDecision::Skip));
    assert!(matches!(select_motion_target(&mut clean, tuning(2), &es, &id, Some(7), None, false, 99), MotionTargetDecision::Skip));
}

#[test]
fn target_must_be_predicted_unless_it_is_the_player() {
    let mut st = MotionOwnershipReconcileState::new();
    mark_motion_ownership_dirty(&mut st, true);
    let mut predicted = root(9, 7);
    predicted.is_predicted = true;
    predicted.is_interpolated = false;
    let es = vec![root(3, 7), predicted, root(1, 8)];
    let id = Some("ship".to_string());
    match select_motion_target(&mut st, tuning(0), &es, &id, Some(7), None, false, 0) {
        MotionTargetDecision::Target { index, target_guid } => {
            assert_eq!(index, 1);
            assert_eq!(target_guid, 7);
        }
        other => panic!("unexpected decision {:?}", other),
    }
    let es = vec![root(3, 7), root(2, 7)];
    match select_motion_target(&mut st, tuning(0), &es, &id, Some(7), None, false, 1000) {
        MotionTargetDecision::WaitingForPredicted { target_guid, warn } => {
            assert_eq!(target_guid, 7);
            assert!(warn);
        }
        other => panic!("unexpected decision {:?}", other),
    }
    assert_eq!(st.missing_predicted_warn_at_ms, 1000);
    match select_motion_target(&mut st, tuning(0), &es, &id, Some(7), None, false, 1500) {
        MotionTargetDecision::WaitingForPredicted { warn, .. } => assert!(!warn),
        other => panic!("unexpected decision {:?}", other),
    }
    match select_motion_target(&mut st, tuning(0), &es, &id, Some(7), Some(7), false, 1500) {
        MotionTargetDecision::Target { index, .. } => assert_eq!(index, 1),
        other => panic!("unexpected decision {:?}", other),
    }
}

#[test]
fn nearest_entities_keep_proxies() {
    let mut st = MotionOwnershipReconcileState::new();
    st.dirty = true;
    let mut target = root(1, 7);
    target.is_predicted = true;
    target.controlled = true;
    let mut suppressed = root(5, 11);
    suppressed.is_suppressed = true;
    let mut unready = root(6, 12);
    unready.interpolation_history_ready = false;
    let mut mounted = root(7, 13);
    mounted.mounted = true;
    let mut stray_control = root(8, 14);
    stray_control.controlled = true;
    let es = vec![target, root(2, 8), root(3, 9), root(4, 10), suppressed, unready, mounted, stray_control];
    let keys = vec![Some(0), Some(30), Some(10), Some(20), Some(1), Some(5), Some(1), Some(1)];
    let plans = plan_motion_ownership(&mut st, &es, &keys, 0, 7, 2, 777);
    assert_eq!(plans.len(), es.len());
    assert_eq!(plans[0].action, MotionEntityAction::TargetBody(TargetBodyChange::InsertDynamic));
    assert!(!plans[0].remove_controlled);
    assert_eq!(plans[1].action, MotionEntityAction::StripPhysics);
    assert_eq!(plans[2].action, MotionEntityAction::KinematicProxy);
    assert_eq!(plans[3].action, MotionEntityAction::StripPhysics);
    assert_eq!(plans[4].action, MotionEntityAction::StripSuppressed);
    assert_eq!(plans[5].action, MotionEntityAction::StripUnready);
    assert_eq!(plans[6].action, MotionEntityAction::NotRoot);
    assert_eq!(plans[7].action, MotionEntityAction::StripPhysics);
    assert!(plans[7].remove_controlled);
    assert!(!st.dirty);
    assert_eq!(st.last_reconcile_at_ms, 777);
    assert_eq!(st.last_target_entity, Some(1));
    assert_eq!(st.last_target_guid, Some(7));
}

#[test]
fn player_anchor_target_gets_no_body() {
    let mut st = MotionOwnershipReconcileState::new();
    let mut anchor = root(1, 7);
    anchor.has_player_tag = true;
    let plans = plan_motion_ownership(&mut st, &vec![anchor], &vec![None], 0, 7, 4, 0);
    assert_eq!(plans[0].action, MotionEntityAction::TargetAnchor);
}
