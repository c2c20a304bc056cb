use sidereal_client::adoption::{
    candidate_replaces_existing, candidate_runtime_entity_score, existing_runtime_entity_score,
    missing_motion_components_summary, should_defer_controlled_predicted_adoption,
};

#[test]
fn predicted_controlled_adoption_defers_until_avian_motion_available() {
    assert!(should_defer_controlled_predicted_adoption(true, false, true, true));
    assert!(should_defer_controlled_predicted_adoption(true, true, false, true));
    assert!(should_defer_controlled_predicted_adoption(true, true, true, false));
}

#[test]
fn predicted_controlled_adoption_proceeds_when_requirements_met() {
    assert!(!should_defer_controlled_predicted_adoption(true, true, true, true));
    assert!(!should_defer_controlled_predicted_adoption(false, false, false, false));
}

#[test]
fn missing_components_are_listed_in_order() {
    assert_eq!(missing_motion_components_summary(false, false, false), "Position, Rotation, LinearVelocity");
    assert_eq!(missing_motion_components_summary(true, false, true), "Rotation");
    assert_eq!(missing_motion_components_summary(false, true, false), "Position, LinearVelocity");
    assert_eq!(missing_motion_components_summary(true, true, true), "");
}

#[test]
fn adoption_scores_rank_controlled_predicted_highest() {
    assert_eq!(candidate_runtime_entity_score(true, true, true), 500);
    assert_eq!(candidate_runtime_entity_score(true, true, false), 400);
    assert_eq!(candidate_runtime_entity_score(true, false, true), 200);
    assert_eq!(candidate_runtime_entity_score(true, false, false), 100);
    assert_eq!(candidate_runtime_entity_score(false, false, true), 50);
    assert_eq!(existing_runtime_entity_score(true, true, true, false, false), 500);
    assert_eq!(existing_runtime_entity_score(true, false, false, true, true), 100);
    assert_eq!(existing_runtime_entity_score(true, false, false, false, true), 90);
    assert_eq!(existing_runtime_entity_score(true, false, false, false, false), 80);
    assert_eq!(existing_runtime_entity_score(false, false, false, false, false), 0);
    assert!(candidate_replaces_existing(200, 100));
    assert!(!candidate_replaces_existing(100, 100));
}

use sidereal_client::adoption::{
    adopt_replicated_entity, finish_adoption_pass, ids_refer_to_same_guid, AdoptionDecision, AdoptionRole,
    DeferredPredictedAdoptionState, PredictionBootstrapTuning, ReplicatedEntityView,
};

const SHIP_GUID: u128 = 0x0000000000000000000000000000abcd;
const SHIP_ID: &str = "00000000-0000-0000-0000-00000000abcd";

fn tuning() -> PredictionBootstrapTuning {
    PredictionBootstrapTuning {
        defer_warn_after_ms: 1000,
        defer_warn_interval_ms: 1000,
        defer_dialog_after_ms: 5000,
        defer_summary_interval_ms: 2000,
    }
}

fn ship_view(has_position: bool, has_rotation: bool, has_linear_velocity: bool) -> ReplicatedEntityView {
    ReplicatedEntityView {
        entity_bits: 11,
        guid: SHIP_GUID,
        runtime_id_guid: None,
        mounted: false,
        has_hardpoint: false,
        has_player_tag: false,
        has_position,
        has_rotation,
        has_linear_velocity,
        has_size: false,
        has_world_position: false,
        has_world_rotation: false,
        visual_asset_id: Some("hull".to_string()),
        sprite_shader_asset_id: None,
        is_replicated: true,
        registered: None,
    }
}

#[test]
fn controlled_entity_waits_for_motion_then_is_adopted() {
    let mut st = DeferredPredictedAdoptionState::new();
    let t = tuning();
    let controlled = Some(SHIP_ID.to_string());
    let player = "player".to_string();
    let (d, warn) = adopt_replicated_entity(&mut st, &t, false, &player, None, &controlled, &ship_view(true, false, true), 100);
    assert!(matches!(d, AdoptionDecision::Defer));
    assert!(!warn);
    assert_eq!(st.waiting_entity_id.as_deref(), Some(SHIP_ID));
    assert_eq!(st.wait_started_at_ms, Some(100));
    assert_eq!(st.last_missing_components, "Rotation");
    let (_, warn) = adopt_replicated_entity(&mut st, &t, false, &player, None, &controlled, &ship_view(true, false, true), 1100);
    assert!(warn);
    assert_eq!(st.wait_started_at_ms, Some(100));
    let (d, warn) = adopt_replicated_entity(&mut st, &t, false, &player, None, &controlled, &ship_view(true, true, true), 1600);
    assert!(!warn);
    match d {
        AdoptionDecision::Adopt { runtime_entity_id, register, frame_interpolate, streamed_visual_asset_id, role, .. } => {
            assert_eq!(runtime_entity_id, SHIP_ID);
            assert!(register);
            assert!(frame_interpolate);
            assert_eq!(streamed_visual_asset_id.as_deref(), Some("hull"));
            assert_eq!(role, AdoptionRole::LocalControlled);
        }
        other => panic!("unexpected decision {:?}", other),
    }
    assert!(st.waiting_entity_id.is_none());
    assert_eq!(st.resolved_samples, 1);
    assert_eq!(st.resolved_total_wait_ms, 1500);
    assert_eq!(st.resolved_max_wait_ms, 1500);
    assert!(finish_adoption_pass(&mut st, &t, 1, 2000));
    assert_eq!(st.last_summary_at_ms, 2000);
    assert!(!finish_adoption_pass(&mut st, &t, 1, 3999));
}

#[test]
fn local_simulation_adopts_without_waiting() {
    let mut st = DeferredPredictedAdoptionState::new();
    let controlled = Some(SHIP_ID.to_string());
    let (d, _) = adopt_replicated_entity(&mut st, &tuning(), true, &"player".to_string(), None, &controlled, &ship_view(false, false, false), 0);
    assert!(matches!(d, AdoptionDecision::Adopt { role: AdoptionRole::LocalControlled, frame_interpolate: false, .. }));
}

#[test]
fn partial_spatial_roots_and_live_duplicates_are_skipped() {
    let mut st = DeferredPredictedAdoptionState::new();
    let mut v = ship_view(true, true, false);
    v.has_size = true;
    let (d, _) = adopt_replicated_entity(&mut st, &tuning(), false, &"player".to_string(), None, &None, &v, 0);
    assert!(matches!(d, AdoptionDecision::SkipPartialSpatialRoot));
    let mut v = ship_view(true, true, true);
    v.registered = Some((99, true));
    let (d, _) = adopt_replicated_entity(&mut st, &tuning(), false, &"player".to_string(), None, &None, &v, 0);
    assert!(matches!(d, AdoptionDecision::HideDuplicate));
    v.registered = Some((99, false));
    let (d, _) = adopt_replicated_entity(&mut st, &tuning(), false, &"player".to_string(), None, &None, &v, 0);
    assert!(matches!(d, AdoptionDecision::Adopt { drop_stale_registration: true, role: AdoptionRole::RemoteRoot, .. }));
}

#[test]
fn player_entities_are_recognised_by_id_or_guid() {
    let mut st = DeferredPredictedAdoptionState::new();
    let mut v = ship_view(true, true, true);
    v.has_player_tag = true;
    let (d, _) = adopt_replicated_entity(&mut st, &tuning(), false, &SHIP_ID.to_string(), None, &None, &v, 0);
    assert!(matches!(d, AdoptionDecision::Adopt { role: AdoptionRole::LocalPlayer, streamed_visual_asset_id: None, .. }));
    let (d, _) = adopt_replicated_entity(&mut st, &tuning(), false, &"someone".to_string(), None, &None, &v, 0);
    assert!(matches!(d, AdoptionDecision::Adopt { role: AdoptionRole::Passive, .. }));
    assert!(ids_refer_to_same_guid(&"a".to_string(), &"b".to_string(), Some(1), Some(1)));
    assert!(!ids_refer_to_same_guid(&"a".to_string(), &"b".to_string(), None, None));
}

use sidereal_client::adoption::{adopt_native_lightyear_replicated_entities, RuntimeEntityEntry};

#[test]
fn adoption_pass_registers_the_first_copy_and_hides_a_later_live_one() {
    let mut st = DeferredPredictedAdoptionState::new();
    let mut seen = false;
    let mut registry: Vec<RuntimeEntityEntry> = Vec::new();
    let mut remote: Vec<RuntimeEntityEntry> = Vec::new();
    let first = ship_view(true, true, true);
    let mut second = ship_view(true, true, true);
    second.entity_bits = 12;
    let decisions = adopt_native_lightyear_replicated_entities(
        &mut st,
        &mut seen,
        &mut registry,
        &mut remote,
        &tuning(),
        false,
        &Some("player".to_string()),
        None,
        &None,
        vec![first, second],
        &vec![11, 12],
        100,
    );
    assert!(seen);
    assert_eq!(decisions.len(), 2);
    assert!(matches!(&decisions[0].0, AdoptionDecision::Adopt { role: AdoptionRole::RemoteRoot, register: true, .. }));
    assert!(matches!(decisions[1].0, AdoptionDecision::HideDuplicate));
    assert_eq!(registry.len(), 1);
    assert_eq!(registry[0].entity_id, SHIP_ID);
    assert_eq!(registry[0].entity_bits, 11);
    assert_eq!(remote.len(), 1);
}

#[test]
fn adoption_pass_replaces_a_dead_registration_and_needs_a_local_player() {
    let mut st = DeferredPredictedAdoptionState::new();
    let mut seen = false;
    let mut registry = vec![RuntimeEntityEntry { entity_id: SHIP_ID.to_string(), entity_bits: 7 }];
    let mut remote: Vec<RuntimeEntityEntry> = Vec::new();
    let none = adopt_native_lightyear_replicated_entities(
        &mut st, &mut seen, &mut registry, &mut remote, &tuning(), false, &None, None, &None,
        vec![ship_view(true, true, true)], &vec![11], 100,
    );
    assert!(none.is_empty());
    assert!(!seen);
    let decisions = adopt_native_lightyear_replicated_entities(
        &mut st, &mut seen, &mut registry, &mut remote, &tuning(), false, &Some("player".to_string()), None, &None,
        vec![ship_view(true, true, true)], &vec![11], 100,
    );
    assert!(matches!(&decisions[0].0, AdoptionDecision::Adopt { drop_stale_registration: true, .. }));
    assert_eq!(registry.len(), 1);
    assert_eq!(registry[0].entity_bits, 11);
}
