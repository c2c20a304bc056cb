use sidereal_client::control::{
    apply_control_ack, apply_control_reject, asset_loading_complete, finish_handover_audit, handover_audit_due,
    is_active_world_state, note_client_control_state_change, plan_control_request, resolve_authoritative_control_entity_id,
    runtime_entity_id_from_guid, select_control_target_entity, sync_local_player_view_state, world_loading_complete,
    ClientAppState, ClientControlDebugState, ClientControlRequestState, ControlCandidate, LocalPlayerViewState,
};

const PLAYER_GUID: u128 = 0x67e5504410b1426f9247bb680e5fe0c8;
const PLAYER_GUID_TEXT: &str = "67e55044-10b1-426f-9247-bb680e5fe0c8";

fn view(controlled: Option<&str>, desired: Option<&str>) -> LocalPlayerViewState {
    LocalPlayerViewState {
        controlled_entity_id: controlled.map(|s| s.to_string()),
        desired_controlled_entity_id: desired.map(|s| s.to_string()),
        selected_entity_id: None,
        detached_free_camera: false,
    }
}

fn debug_state() -> ClientControlDebugState {
    ClientControlDebugState {
        last_controlled_entity_id: None,
        last_pending_controlled_entity_id: None,
        last_detached_free_camera: false,
        handover_audit_entity_id: None,
        handover_audit_started_at_ms: None,
        last_handover_audit_log_at_ms: 0,
    }
}

#[test]
fn active_world_states() {
    assert!(is_active_world_state(Some(ClientAppState::InWorld), false));
    assert!(is_active_world_state(Some(ClientAppState::WorldLoading), false));
    assert!(is_active_world_state(Some(ClientAppState::AssetLoading), false));
    assert!(!is_active_world_state(Some(ClientAppState::Auth), false));
    assert!(is_active_world_state(None, true));
}

#[test]
fn control_request_opens_sends_and_throttles() {
    let mut st = ClientControlRequestState::new();
    let v = view(Some("player"), Some("ship"));
    let player = Some("player".to_string());
    assert!(plan_control_request(&mut st, &v, None, None, &player, false, true, 0).is_none());
    assert!(st.pending_request_seq.is_none());
    let m = plan_control_request(&mut st, &v, None, None, &player, true, true, 1000).unwrap();
    assert_eq!(m.request_seq, 1);
    assert_eq!(m.controlled_entity_id.as_deref(), Some("ship"));
    assert_eq!(m.player_entity_id, "player");
    assert!(plan_control_request(&mut st, &v, None, None, &player, true, true, 1400).is_none());
    let m = plan_control_request(&mut st, &v, None, None, &player, true, true, 1500).unwrap();
    assert_eq!(m.request_seq, 1);
    assert_eq!(st.next_request_seq, 1);
}

#[test]
fn control_request_not_opened_for_the_same_entity_by_guid() {
    let mut st = ClientControlRequestState::new();
    let v = view(Some("ship-runtime"), Some("ship-wire"));
    let player = Some("player".to_string());
    assert!(plan_control_request(&mut st, &v, Some(9), Some(9), &player, true, true, 0).is_none());
    assert!(st.pending_request_seq.is_none());
}

#[test]
fn control_ack_settles_the_request_and_starts_the_audit() {
    let mut st = ClientControlRequestState::new();
    let v0 = view(Some("player"), Some("ship"));
    let player = Some("player".to_string());
    plan_control_request(&mut st, &v0, None, None, &player, true, true, 0).unwrap();
    let mut v = v0;
    let mut dbg = debug_state();
    apply_control_ack(&mut st, &mut v, &mut dbg, &"player".to_string(), Some("ship".to_string()), 1, 50);
    assert!(st.pending_request_seq.is_none());
    assert_eq!(v.controlled_entity_id.as_deref(), Some("ship"));
    assert_eq!(v.desired_controlled_entity_id.as_deref(), Some("ship"));
    assert_eq!(dbg.handover_audit_entity_id.as_deref(), Some("ship"));
    assert_eq!(dbg.handover_audit_started_at_ms, Some(50));
    apply_control_ack(&mut st, &mut v, &mut dbg, &"player".to_string(), None, 7, 60);
    assert_eq!(v.controlled_entity_id.as_deref(), Some("player"));
}

#[test]
fn control_reject_keeps_authority_and_flags_stale_duplicates() {
    let mut st = ClientControlRequestState::new();
    st.pending_request_seq = Some(3);
    let mut v = view(None, Some("ship"));
    let mut dbg = debug_state();
    let dup = apply_control_reject(
        &mut st, &mut v, &mut dbg, &"player".to_string(), None, &"stale_seq".to_string(), 2, 10,
    );
    assert!(dup);
    assert_eq!(st.pending_request_seq, Some(3));
    assert_eq!(v.controlled_entity_id.as_deref(), Some("player"));
    assert_eq!(v.desired_controlled_entity_id.as_deref(), Some("player"));
    let dup = apply_control_reject(
        &mut st, &mut v, &mut dbg, &"player".to_string(), Some("ship".to_string()), &"stale_seq".to_string(), 3, 20,
    );
    assert!(!dup);
    assert!(st.pending_request_seq.is_none());
    assert_eq!(v.controlled_entity_id.as_deref(), Some("ship"));
}

#[test]
fn control_state_changes_are_noted_once() {
    let mut dbg = debug_state();
    let st = ClientControlRequestState::new();
    let v = view(Some("ship"), None);
    assert!(note_client_control_state_change(&mut dbg, &v, &st));
    assert!(!note_client_control_state_change(&mut dbg, &v, &st));
}

#[test]
fn handover_audit_logs_every_second_until_predicted() {
    let mut dbg = debug_state();
    assert!(!handover_audit_due(&mut dbg, 5000));
    dbg.handover_audit_entity_id = Some("ship".to_string());
    dbg.handover_audit_started_at_ms = Some(0);
    assert!(handover_audit_due(&mut dbg, 1000));
    assert!(!handover_audit_due(&mut dbg, 1999));
    assert!(handover_audit_due(&mut dbg, 2000));
    finish_handover_audit(&mut dbg, false);
    assert!(dbg.handover_audit_entity_id.is_some());
    finish_handover_audit(&mut dbg, true);
    assert!(dbg.handover_audit_entity_id.is_none());
}

#[test]
fn runtime_ids_resolve_through_the_player_guid_text() {
    let registry = vec!["ship".to_string()];
    let player = "player:1".to_string();
    assert_eq!(
        runtime_entity_id_from_guid(&registry, &player, Some(PLAYER_GUID), &"ship".to_string()).as_deref(),
        Some("ship")
    );
    assert_eq!(
        runtime_entity_id_from_guid(&registry, &player, Some(PLAYER_GUID), &PLAYER_GUID_TEXT.to_string()).as_deref(),
        Some("player:1")
    );
    assert!(runtime_entity_id_from_guid(&registry, &player, Some(PLAYER_GUID), &"other".to_string()).is_none());
    assert!(runtime_entity_id_from_guid(&registry, &player, None, &PLAYER_GUID_TEXT.to_string()).is_none());
    assert_eq!(
        resolve_authoritative_control_entity_id(&registry, &player, Some(PLAYER_GUID), &Some(PLAYER_GUID_TEXT.to_string()))
            .as_deref(),
        Some("player:1")
    );
    assert!(resolve_authoritative_control_entity_id(&registry, &player, Some(PLAYER_GUID), &None).is_none());
}

#[test]
fn view_follows_the_authoritative_target() {
    let st = ClientControlRequestState::new();
    let mut v = view(Some("a"), Some("a"));
    sync_local_player_view_state(&mut v, &st, Some("b".to_string()));
    assert_eq!(v.controlled_entity_id.as_deref(), Some("b"));
    assert_eq!(v.desired_controlled_entity_id.as_deref(), Some("b"));
    let mut pending = ClientControlRequestState::new();
    pending.pending_request_seq = Some(1);
    sync_local_player_view_state(&mut v, &pending, Some("c".to_string()));
    assert_eq!(v.controlled_entity_id.as_deref(), Some("c"));
    assert_eq!(v.desired_controlled_entity_id.as_deref(), Some("b"));
    sync_local_player_view_state(&mut v, &st, None);
    assert_eq!(v.controlled_entity_id.as_deref(), Some("c"));
}

#[test]
fn loading_phases_complete() {
    let registry = vec![PLAYER_GUID_TEXT.to_string()];
    let p = Some("player:1".to_string());
    assert!(world_loading_complete(Some(ClientAppState::WorldLoading), &p, &p, &registry, Some(PLAYER_GUID)));
    assert!(!world_loading_complete(Some(ClientAppState::WorldLoading), &p, &None, &registry, Some(PLAYER_GUID)));
    assert!(!world_loading_complete(Some(ClientAppState::InWorld), &p, &p, &registry, Some(PLAYER_GUID)));
    assert!(!world_loading_complete(Some(ClientAppState::WorldLoading), &p, &p, &registry, None));
    assert!(asset_loading_complete(Some(ClientAppState::AssetLoading), true, false));
    assert!(!asset_loading_complete(Some(ClientAppState::AssetLoading), true, true));
}

fn cand(bits: u64, guid: u128, anchor: bool, predicted: bool, interpolated: bool) -> ControlCandidate {
    ControlCandidate { entity_bits: bits, guid, is_player_anchor: anchor, is_predicted: predicted, is_interpolated: interpolated }
}

#[test]
fn control_binds_to_the_lowest_predicted_copy() {
    let c = vec![cand(9, 1, false, true, false), cand(4, 1, false, true, false), cand(2, 1, false, false, false), cand(1, 2, false, true, false)];
    assert_eq!(select_control_target_entity(&c, 1, false), (Some(4), false));
    let c = vec![cand(2, 1, false, false, false), cand(3, 1, false, false, true)];
    assert_eq!(select_control_target_entity(&c, 1, false), (None, true));
    assert_eq!(select_control_target_entity(&c, 1, true), (Some(2), false));
    let c = vec![cand(5, 1, true, false, true), cand(2, 1, false, false, false)];
    assert_eq!(select_control_target_entity(&c, 1, true), (Some(5), false));
}
