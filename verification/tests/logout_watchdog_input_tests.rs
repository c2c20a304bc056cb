use sidereal_client::adoption::DeferredPredictedAdoptionState;
use sidereal_client::asset_cache::LocalAssetManager;
use sidereal_client::adoption::RuntimeEntityEntry;
use sidereal_client::control::{ClientAppState, ClientControlRequestState, LocalPlayerViewState};
use sidereal_client::input_send::{
    input_target_entity_id, keeps_input_marker, record_input_send, should_send_realtime_input_message,
    ClientInputAckTracker, MAX_PENDING_INPUT_TICKS,
};
use sidereal_client::logout::{
    logout_cleanup, request_logout, request_logout_from_ui, reset_logout_flags, step_disconnect, DisconnectStep,
    FreeCameraState, PendingDisconnect,
};
use sidereal_client::session::{AssetBootstrapRequestState, CharacterSelectionState, ClientAuthSyncState, ClientSession};
use sidereal_client::watchdog::{watch_in_world_bootstrap_failures, BootstrapProgress, BootstrapWatchdogState};

#[test]
fn logout_sends_notice_then_disconnects() {
    let mut pending = PendingDisconnect::new();
    let mut cleanup = false;
    assert!(matches!(step_disconnect(&mut pending, &mut cleanup), DisconnectStep::Idle));
    assert!(!request_logout(&mut pending, &None, true));
    assert!(!request_logout(&mut pending, &Some("p1".to_string()), false));
    assert!(request_logout(&mut pending, &Some("p1".to_string()), true));
    assert!(!request_logout(&mut pending, &Some("p2".to_string()), true));
    match step_disconnect(&mut pending, &mut cleanup) {
        DisconnectStep::SendNotify(p) => assert_eq!(p, "p1"),
        other => panic!("unexpected step {:?}", other),
    }
    assert!(!cleanup);
    assert!(matches!(step_disconnect(&mut pending, &mut cleanup), DisconnectStep::Disconnect));
    assert!(cleanup);
    assert!(pending.player_entity_id.is_none());
}

#[test]
fn ui_disconnect_request_is_consumed() {
    let mut pending = PendingDisconnect::new();
    let mut req = true;
    assert!(request_logout_from_ui(&mut pending, &mut req, &Some("p1".to_string())));
    assert!(!req);
    let mut req = true;
    assert!(!request_logout_from_ui(&mut pending, &mut req, &Some("p1".to_string())));
    assert!(req);
}

#[test]
fn logout_cleanup_clears_the_session() {
    let mut cleanup = true;
    let mut session = ClientSession::new(None);
    session.access_token = Some("a".to_string());
    session.player_entity_id = Some("p1".to_string());
    let mut manager = LocalAssetManager::new();
    manager.bootstrap_total_bytes = 10;
    let mut auth = ClientAuthSyncState {
        sent_for_client_entities: vec![1],
        last_sent_at_ms_by_client_entity: vec![(1, 5)],
        last_player_entity_id: Some("p1".to_string()),
    };
    let mut control = ClientControlRequestState::new();
    control.next_request_seq = 4;
    let mut view = LocalPlayerViewState {
        controlled_entity_id: Some("x".to_string()),
        desired_controlled_entity_id: None,
        selected_entity_id: None,
        detached_free_camera: true,
    };
    let mut sel = CharacterSelectionState { characters: vec!["p1".to_string()], selected_player_entity_id: None };
    let mut ready = Some("p1".to_string());
    let mut watchdog = BootstrapWatchdogState::armed(5);
    let mut tracker = ClientInputAckTracker::new();
    let mut pending = PendingDisconnect::new();
    let mut remote = vec![RuntimeEntityEntry { entity_id: "r".to_string(), entity_bits: 1 }];
    let mut registry = vec![RuntimeEntityEntry { entity_id: "e".to_string(), entity_bits: 2 }];
    let mut free_camera = FreeCameraState { initialized: true };
    assert_eq!(
        logout_cleanup(
            &mut cleanup, &mut session, &mut remote, &mut registry, &mut manager, &mut auth, &mut control, &mut view,
            &mut sel, &mut ready, &mut free_camera, &mut watchdog, &mut tracker, &mut pending,
        ),
        Some(ClientAppState::Auth)
    );
    assert!(remote.is_empty() && registry.is_empty());
    assert!(!free_camera.initialized);
    assert!(!cleanup);
    assert!(session.access_token.is_none() && session.player_entity_id.is_none());
    assert_eq!(session.status, "Logged out. Back on auth screen.");
    assert_eq!(manager.bootstrap_total_bytes, 0);
    assert!(auth.sent_for_client_entities.is_empty());
    assert_eq!(control.next_request_seq, 0);
    assert!(view.controlled_entity_id.is_none() && !view.detached_free_camera);
    assert!(sel.characters.is_empty());
    assert!(ready.is_none());
    assert!(watchdog.in_world_entered_at_ms.is_none());
    free_camera.initialized = true;
    assert_eq!(
        logout_cleanup(
            &mut cleanup, &mut session, &mut remote, &mut registry, &mut manager, &mut auth, &mut control, &mut view,
            &mut sel, &mut ready, &mut free_camera, &mut watchdog, &mut tracker, &mut pending,
        ),
        None
    );
    assert!(free_camera.initialized);
}

#[test]
fn logout_flags_reset_only_after_cleanup() {
    let mut req = true;
    let mut pause = true;
    let mut b = AssetBootstrapRequestState { pending: true, submitted: true, completed: true, failed: true };
    reset_logout_flags(false, &mut req, &mut pause, &mut b);
    assert!(req && pause && b.pending);
    reset_logout_flags(true, &mut req, &mut pause, &mut b);
    assert!(!req && !pause && !b.pending && !b.submitted && !b.completed && !b.failed);
}

fn progress(manifest_seen: bool, phase_complete: bool, ready_bytes: u64, pending_assets: usize) -> BootstrapProgress {
    BootstrapProgress { manifest_seen, phase_complete, ready_bytes, pending_assets }
}

#[test]
fn watchdog_times_out_without_manifest_or_replication() {
    let mut w = BootstrapWatchdogState::armed(0);
    let mut adoption = DeferredPredictedAdoptionState::new();
    let r = watch_in_world_bootstrap_failures(&mut w, progress(false, false, 0, 0), false, &mut adoption, 5000, 3000);
    assert!(!r.timeout_dialog);
    let r = watch_in_world_bootstrap_failures(&mut w, progress(false, false, 0, 0), false, &mut adoption, 5000, 3001);
    assert!(r.timeout_dialog);
    assert!(w.timeout_dialog_shown);
    let r = watch_in_world_bootstrap_failures(&mut w, progress(false, false, 0, 0), false, &mut adoption, 5000, 9000);
    assert!(!r.timeout_dialog);
}

#[test]
fn watchdog_reports_a_stalled_stream_and_forces_completion() {
    let mut w = BootstrapWatchdogState::armed(0);
    let mut adoption = DeferredPredictedAdoptionState::new();
    let r = watch_in_world_bootstrap_failures(&mut w, progress(true, false, 100, 2), true, &mut adoption, 5000, 1000);
    assert!(!r.stream_stall_dialog);
    assert_eq!(w.last_bootstrap_progress_at_ms, 1000);
    let r = watch_in_world_bootstrap_failures(&mut w, progress(true, false, 100, 2), true, &mut adoption, 5000, 7001);
    assert!(r.stream_stall_dialog);
    assert!(r.force_bootstrap_complete);
}

#[test]
fn watchdog_reports_missing_world_state_after_bootstrap() {
    let mut w = BootstrapWatchdogState::armed(0);
    let mut adoption = DeferredPredictedAdoptionState::new();
    let r = watch_in_world_bootstrap_failures(&mut w, progress(true, true, 0, 0), false, &mut adoption, 5000, 10001);
    assert!(r.no_world_state_dialog);
    let r = watch_in_world_bootstrap_failures(&mut w, progress(true, true, 0, 0), false, &mut adoption, 5000, 20000);
    assert!(!r.no_world_state_dialog);
}

#[test]
fn watchdog_reports_a_long_adoption_wait_once() {
    let mut w = BootstrapWatchdogState::armed(0);
    let mut adoption = DeferredPredictedAdoptionState::new();
    adoption.waiting_entity_id = Some("ship".to_string());
    adoption.wait_started_at_ms = Some(100);
    let r = watch_in_world_bootstrap_failures(&mut w, progress(true, true, 0, 0), true, &mut adoption, 5000, 5100);
    assert!(!r.adoption_delay_dialog);
    let r = watch_in_world_bootstrap_failures(&mut w, progress(true, true, 0, 0), true, &mut adoption, 5000, 5101);
    assert!(r.adoption_delay_dialog);
    let r = watch_in_world_bootstrap_failures(&mut w, progress(true, true, 0, 0), true, &mut adoption, 5000, 9000);
    assert!(!r.adoption_delay_dialog);
}

#[test]
fn input_is_sent_on_change_or_heartbeat() {
    assert!(should_send_realtime_input_message(50, None, false, false));
    assert!(!should_send_realtime_input_message(150, Some(100), false, false));
    assert!(should_send_realtime_input_message(200, Some(100), false, false));
    assert!(should_send_realtime_input_message(101, Some(100), true, false));
    assert!(should_send_realtime_input_message(101, Some(100), false, true));
}

#[test]
fn input_goes_to_the_registered_controlled_entity() {
    let registry = vec!["ship".to_string()];
    let player = "player".to_string();
    assert_eq!(input_target_entity_id(&Some("ship".to_string()), &registry, &player), "ship");
    assert_eq!(input_target_entity_id(&Some("gone".to_string()), &registry, &player), "player");
    assert_eq!(input_target_entity_id(&None, &registry, &player), "player");
    assert!(keeps_input_marker(3, Some(3), &Some("player".to_string()), &player));
    assert!(!keeps_input_marker(3, Some(4), &Some("player".to_string()), &player));
    assert!(!keeps_input_marker(3, Some(3), &Some("other".to_string()), &player));
}

#[test]
fn pending_input_ticks_are_capped() {
    let mut tick = 0u64;
    let mut tracker = ClientInputAckTracker::new();
    for _ in 0..(MAX_PENDING_INPUT_TICKS + 3) {
        record_input_send(&mut tick, &mut tracker);
    }
    assert_eq!(tick, (MAX_PENDING_INPUT_TICKS + 3) as u64);
    assert_eq!(tracker.pending_ticks.len(), MAX_PENDING_INPUT_TICKS);
    assert_eq!(tracker.pending_ticks[0], 4);
    assert_eq!(*tracker.pending_ticks.last().unwrap(), tick);
}

#[test]
fn input_tick_saturates_at_the_largest_value() {
    let mut tick = u64::MAX - 1;
    let mut tracker = ClientInputAckTracker::new();
    assert_eq!(record_input_send(&mut tick, &mut tracker), u64::MAX);
    assert_eq!(record_input_send(&mut tick, &mut tracker), u64::MAX);
    assert_eq!(tracker.pending_ticks, vec![u64::MAX, u64::MAX]);
}
