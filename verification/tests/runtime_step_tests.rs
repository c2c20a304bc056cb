use sidereal_client::prediction_runtime::prediction_runtime_warnings;
use sidereal_client::control::{sync_controlled_entity_tags, ControlCandidate};
use sidereal_client::asset_bootstrap::{
    assemble_asset_bootstrap_result, verify_downloaded_asset, AssetBootstrapManifest, AssetBootstrapRequiredAsset,
    RequiredAssetFetch,
};
use sidereal_client::asset_cache::AssetCacheIndexRecord;
use sidereal_client::asset_deps::{hash_asset_ids, sorted_asset_ids};
use sidereal_client::render_layers::str_lex_lt;
use sidereal_client::asset_fetch::swap_remove_first_string;
use sidereal_client::assets::RuntimeAssetCatalogRecord;
use sidereal_client::control::{
    plan_control_tags, receive_lightyear_control_results, ClientControlDebugState, ClientControlRequestState, ControlResultMessage,
    ControlResultOutcome, LocalPlayerViewState,
};
use sidereal_client::input_send::{send_lightyear_input_messages, ClientInputAckTracker, ClientInputSendState};
use sidereal_client::prediction_runtime::{prediction_runtime_step, RollbackSampleState};
use sidereal_client::session::ClientSession;
use sidereal_client::watchdog::{apply_watchdog_outcome, DialogLevel, WatchdogDiagnostics, WatchdogOutcome};

fn outcome(timeout: bool, no_world: bool, adoption: bool, stall: bool, force: bool) -> WatchdogOutcome {
    WatchdogOutcome {
        timeout_dialog: timeout,
        no_world_state_dialog: no_world,
        adoption_delay_dialog: adoption,
        stream_stall_dialog: stall,
        force_bootstrap_complete: force,
    }
}

fn diagnostics() -> WatchdogDiagnostics {
    WatchdogDiagnostics {
        auth_bind_sent: true,
        replication_seen: false,
        manifest_seen: false,
        waiting_entity_id: Some("ship-1".to_string()),
        wait_text: "12.5".to_string(),
        missing_components: "Position".to_string(),
        ready_bytes: 120,
        total_bytes: 4096,
        pending_assets: 3,
    }
}

#[test]
fn watchdog_timeout_sets_status_and_raises_error_dialog() {
    let mut session = ClientSession::new(None);
    session.ui_dirty = false;
    let dialogs = apply_watchdog_outcome(&mut session, outcome(true, false, false, false, false), &diagnostics());
    assert_eq!(session.status, "World bootstrap timed out. Check error dialog.");
    assert!(session.ui_dirty);
    assert_eq!(dialogs.len(), 1);
    assert_eq!(dialogs[0].level, DialogLevel::Error);
    assert_eq!(dialogs[0].title, "World Bootstrap Timeout");
    assert_eq!(
        dialogs[0].message,
        "Connected to transport, but world bootstrap did not begin within 3 seconds.\n\nDiagnostics:\n- Auth bind sent: yes\n- Replication state received: no\n- Asset manifest received: no\n\nLikely causes:\n- Replication rejected client auth bind (JWT mismatch/missing secret)\n- Replication auth/visibility flow not bound for this player\n\nCheck replication logs for: 'replication client authenticated and bound'."
    );
}

#[test]
fn watchdog_nothing_raised_leaves_session_alone() {
    let mut session = ClientSession::new(None);
    session.ui_dirty = false;
    let before = session.status.clone();
    let dialogs = apply_watchdog_outcome(&mut session, outcome(false, false, false, false, false), &diagnostics());
    assert!(dialogs.is_empty());
    assert_eq!(session.status, before);
    assert!(!session.ui_dirty);
}

#[test]
fn watchdog_stall_reports_numbers_and_degraded_status() {
    let mut session = ClientSession::new(None);
    let dialogs = apply_watchdog_outcome(&mut session, outcome(false, false, true, true, true), &diagnostics());
    assert_eq!(dialogs.len(), 2);
    assert_eq!(dialogs[0].level, DialogLevel::Warning);
    assert_eq!(dialogs[0].title, "Controlled Entity Adoption Delayed");
    assert_eq!(
        dialogs[0].message,
        "Replication is active, but the controlled predicted entity is still waiting for required replicated Avian components.\n\nEntity: ship-1\nWait time: 12.5s\nMissing: Position\n\nThis usually means component replication for the controlled entity is arriving out-of-order under load."
    );
    assert_eq!(dialogs[1].title, "Asset Streaming Stalled");
    assert_eq!(
        dialogs[1].message,
        "Received asset manifest, but bootstrap download progress has not changed for 6 seconds.\n\nDiagnostics:\n- Bootstrap ready bytes: 120\n- Bootstrap total bytes: 4096\n- Pending assets: 3\n\nCheck replication asset stream logs for chunk send/request/ack activity."
    );
    assert_eq!(session.status, "Asset bootstrap stalled; continuing in degraded mode while streaming retries.");
}

#[test]
fn watchdog_no_world_state_dialog() {
    let mut session = ClientSession::new(None);
    let dialogs = apply_watchdog_outcome(&mut session, outcome(false, true, false, false, false), &diagnostics());
    assert_eq!(dialogs.len(), 1);
    assert_eq!(dialogs[0].title, "No World State Received");
    assert_eq!(session.status, "No world state received. Check error dialog.");
}

fn required(id: &str, len: u64, sha: &str) -> AssetBootstrapRequiredAsset {
    AssetBootstrapRequiredAsset {
        asset_id: id.to_string(),
        url: format!("/assets/{id}"),
        relative_cache_path: format!("{id}.bin"),
        byte_len: len,
        sha256_hex: sha.to_string(),
    }
}

fn catalog_entry(id: &str, sha: &str) -> RuntimeAssetCatalogRecord {
    RuntimeAssetCatalogRecord {
        asset_id: id.to_string(),
        asset_guid: format!("guid-{id}"),
        shader_family: None,
        dependencies: Vec::new(),
        url: format!("/assets/{id}"),
        relative_cache_path: format!("{id}.bin"),
        content_type: "application/octet-stream".to_string(),
        byte_len: 10,
        sha256_hex: sha.to_string(),
    }
}

#[test]
fn downloaded_asset_with_wrong_digest_is_refused() {
    let r = required("hull", 10, "aa");
    assert_eq!(verify_downloaded_asset(&r, &"aa".to_string()), Ok(()));
    assert_eq!(
        verify_downloaded_asset(&r, &"bb".to_string()),
        Err("asset checksum mismatch asset_id=hull expected=aa got=bb".to_string())
    );
}

#[test]
fn bootstrap_result_sums_required_bytes_and_indexes_versions() {
    let manifest = AssetBootstrapManifest {
        catalog: vec![catalog_entry("hull", "aa"), catalog_entry("sky", "cc")],
        required_assets: vec![required("hull", u64::MAX - 5, "aa"), required("engine", 10, "ee")],
    };
    let fetches = vec![
        RequiredAssetFetch::Cached,
        RequiredAssetFetch::Downloaded { payload_sha256_hex: "ee".to_string() },
    ];
    let result = assemble_asset_bootstrap_result(
        manifest,
        &vec![false, false],
        &vec![7, 9],
        &fetches,
        &vec![7, 11],
        vec![AssetCacheIndexRecord { asset_id: "old".to_string(), asset_version: 1, sha256_hex: "00".to_string() }],
    )
    .expect("every digest matches");
    assert_eq!(result.bootstrap_total_bytes, u64::MAX);
    assert_eq!(result.bootstrap_ready_bytes, u64::MAX);
    assert_eq!(result.records.len(), 2);
    assert!(result.records[0].ready);
    assert!(!result.records[1].ready);
    assert_eq!(result.records[1].asset_version, 9);
    let engine = result.cache_index.iter().find(|r| r.asset_id == "engine").expect("indexed");
    assert_eq!(engine.asset_version, 11);
    assert!(result.cache_index.iter().any(|r| r.asset_id == "old"));
}

#[test]
fn bootstrap_result_fails_on_first_checksum_mismatch() {
    let manifest = AssetBootstrapManifest {
        catalog: Vec::new(),
        required_assets: vec![required("a", 1, "11"), required("b", 1, "22"), required("c", 1, "33")],
    };
    let fetches = vec![
        RequiredAssetFetch::Downloaded { payload_sha256_hex: "11".to_string() },
        RequiredAssetFetch::Downloaded { payload_sha256_hex: "xx".to_string() },
        RequiredAssetFetch::Downloaded { payload_sha256_hex: "yy".to_string() },
    ];
    let err = assemble_asset_bootstrap_result(manifest, &Vec::new(), &Vec::new(), &fetches, &vec![1, 2, 3], Vec::new())
        .err()
        .expect("mismatch");
    assert_eq!(err, "asset checksum mismatch asset_id=b expected=22 got=xx");
}

#[test]
fn rollback_entry_counts_only_on_rising_edge() {
    let mut state = RollbackSampleState::new();
    let mut last_summary: u64 = 0;
    assert!(!prediction_runtime_step(&mut state, &mut last_summary, true, 1000, 100, None));
    assert!(!prediction_runtime_step(&mut state, &mut last_summary, true, 1000, 200, None));
    assert_eq!(state.total_entries, 1);
    assert_eq!(state.entries_since_log, 1);
    assert_eq!(state.active_frames_since_log, 2);
    assert!(!prediction_runtime_step(&mut state, &mut last_summary, false, 1000, 300, None));
    assert!(!prediction_runtime_step(&mut state, &mut last_summary, true, 1000, 400, None));
    assert_eq!(state.total_entries, 2);
    assert!(prediction_runtime_step(&mut state, &mut last_summary, true, 1000, 1000, Some(Some(42))));
    assert_eq!(last_summary, 1000);
    assert_eq!(state.entries_since_log, 0);
    assert_eq!(state.active_frames_since_log, 0);
    assert_eq!(state.total_entries, 2);
    assert_eq!(state.last_confirmed_tick, Some(42));
}

#[test]
fn rollback_active_frames_saturate() {
    let mut state = RollbackSampleState::new();
    state.active_frames_since_log = u64::MAX;
    state.last_active = true;
    let mut last_summary: u64 = 500;
    assert!(!prediction_runtime_step(&mut state, &mut last_summary, true, 1000, 600, None));
    assert_eq!(state.active_frames_since_log, u64::MAX);
    assert_eq!(last_summary, 500);
}

#[test]
fn forced_ids_sort_lexicographically() {
    let sorted = sorted_asset_ids(vec!["b".to_string(), "ab".to_string(), "a".to_string(), "B".to_string()]);
    assert_eq!(sorted, vec!["B".to_string(), "a".to_string(), "ab".to_string(), "b".to_string()]);
    assert!(str_lex_lt(&"a".to_string(), &"ab".to_string()));
    assert!(!str_lex_lt(&"ab".to_string(), &"ab".to_string()));
}

#[test]
fn forced_id_signature_ignores_order() {
    let a = hash_asset_ids(&vec!["x".to_string(), "y".to_string()]);
    let b = hash_asset_ids(&vec!["y".to_string(), "x".to_string()]);
    let c = hash_asset_ids(&vec!["x".to_string()]);
    assert_eq!(a, b);
    assert_ne!(a, c);
}

#[test]
fn pending_fetch_completion_moves_last_into_gap() {
    let mut pending = vec!["a".to_string(), "b".to_string(), "c".to_string()];
    assert_eq!(swap_remove_first_string(&mut pending, &"a".to_string()), Some(0));
    assert_eq!(pending, vec!["c".to_string(), "b".to_string()]);
    assert_eq!(swap_remove_first_string(&mut pending, &"z".to_string()), None);
}

fn control_states() -> (ClientControlRequestState, LocalPlayerViewState, ClientControlDebugState) {
    let mut request = ClientControlRequestState::new();
    request.pending_controlled_entity_id = Some("ship-2".to_string());
    request.pending_request_seq = Some(5);
    request.last_sent_request_seq = Some(5);
    let view = LocalPlayerViewState {
        controlled_entity_id: Some("player-1".to_string()),
        desired_controlled_entity_id: Some("ship-2".to_string()),
        selected_entity_id: None,
        detached_free_camera: false,
    };
    let debug = ClientControlDebugState {
        last_controlled_entity_id: None,
        last_pending_controlled_entity_id: None,
        last_detached_free_camera: false,
        handover_audit_entity_id: None,
        handover_audit_started_at_ms: None,
        last_handover_audit_log_at_ms: 0,
    };
    (request, view, debug)
}

#[test]
fn control_ack_for_other_player_is_ignored() {
    let (mut request, mut view, mut debug) = control_states();
    let local = Some("player-1".to_string());
    let local_id = Some("p1".to_string());
    let msg = ControlResultMessage::Ack {
        player_entity_id: Some("p2".to_string()),
        request_seq: 5,
        controlled_entity_id: Some("ship-2".to_string()),
    };
    let r = receive_lightyear_control_results(&mut request, &mut view, &mut debug, &local, &local_id, msg, 10);
    assert_eq!(r, ControlResultOutcome::Ignored);
    assert_eq!(request.pending_request_seq, Some(5));
    assert_eq!(view.controlled_entity_id, Some("player-1".to_string()));
}

#[test]
fn control_ack_for_local_player_binds_target() {
    let (mut request, mut view, mut debug) = control_states();
    let local = Some("player-1".to_string());
    let local_id = Some("p1".to_string());
    let msg = ControlResultMessage::Ack {
        player_entity_id: Some("p1".to_string()),
        request_seq: 5,
        controlled_entity_id: Some("ship-2".to_string()),
    };
    let r = receive_lightyear_control_results(&mut request, &mut view, &mut debug, &local, &local_id, msg, 10);
    assert_eq!(r, ControlResultOutcome::Acked);
    assert_eq!(request.pending_request_seq, None);
    assert_eq!(request.pending_controlled_entity_id, None);
    assert_eq!(view.controlled_entity_id, Some("ship-2".to_string()));
    assert_eq!(view.desired_controlled_entity_id, Some("ship-2".to_string()));
}

#[test]
fn control_result_with_unparseable_player_is_ignored() {
    let (mut request, mut view, mut debug) = control_states();
    let local = Some("player-1".to_string());
    let msg = ControlResultMessage::Reject {
        player_entity_id: None,
        request_seq: 5,
        authoritative_controlled_entity_id: None,
        reason: "denied".to_string(),
    };
    let r = receive_lightyear_control_results(&mut request, &mut view, &mut debug, &local, &Some("p1".to_string()), msg, 10);
    assert_eq!(r, ControlResultOutcome::Ignored);
    assert_eq!(request.pending_request_seq, Some(5));
}

#[test]
fn input_send_step_records_last_sent_only_when_due() {
    let mut send = ClientInputSendState::new();
    let mut tick: u64 = 7;
    let mut tracker = ClientInputAckTracker::new();
    let sent = send_lightyear_input_messages(&mut send, &mut tick, &mut tracker, vec![1, 2], "ship-1".to_string(), 1000);
    assert_eq!(sent, Some(8));
    assert_eq!(tick, 8);
    assert_eq!(tracker.pending_ticks, vec![8]);
    assert_eq!(send.last_sent_at_ms, Some(1000));
    assert_eq!(send.last_sent_actions, vec![1, 2]);
    assert_eq!(send.last_sent_target_entity_id, Some("ship-1".to_string()));

    let again = send_lightyear_input_messages(&mut send, &mut tick, &mut tracker, vec![1, 2], "ship-1".to_string(), 1050);
    assert_eq!(again, None);
    assert_eq!(tick, 8);
    assert_eq!(send.last_sent_at_ms, Some(1000));

    let heartbeat = send_lightyear_input_messages(&mut send, &mut tick, &mut tracker, vec![1, 2], "ship-1".to_string(), 1100);
    assert_eq!(heartbeat, Some(9));
    assert_eq!(tracker.pending_ticks, vec![8, 9]);
}

#[test]
fn control_tags_leave_every_entity_but_the_target() {
    let plan = plan_control_tags(&vec![3, 5, 7], &vec![5, 9], Some(5));
    let mut removed = plan.remove_controlled.clone();
    removed.sort();
    assert_eq!(removed, vec![3, 7]);
    assert_eq!(plan.remove_motion_writer, vec![9]);
    assert_eq!(plan.tag_target, Some(5));
    let none = plan_control_tags(&vec![3], &vec![3], None);
    assert_eq!(none.remove_controlled, vec![3]);
    assert_eq!(none.remove_motion_writer, vec![3]);
    assert_eq!(none.tag_target, None);
}

#[test]
fn prediction_runtime_warns_only_when_the_summary_is_due() {
    let quiet = prediction_runtime_warnings(false, false, true, Some(0), 10_000, 5_000, 0, 3, 0, Some((false, true)), true);
    assert!(!quiet.controlled_interpolated && !quiet.no_controlled_entity && !quiet.no_predicted_markers);
    assert!(!quiet.missing_predicted_clone);
    let w = prediction_runtime_warnings(true, false, true, Some(0), 10_000, 5_000, 0, 3, 0, Some((false, true)), true);
    assert!(w.controlled_interpolated && w.no_controlled_entity && w.no_predicted_markers && w.missing_predicted_clone);
    let early = prediction_runtime_warnings(true, false, true, Some(8_000), 10_000, 5_000, 0, 3, 2, None, false);
    assert!(!early.no_controlled_entity && !early.no_predicted_markers && !early.missing_predicted_clone);
    let local = prediction_runtime_warnings(true, true, true, Some(0), 10_000, 5_000, 0, 3, 0, Some((true, false)), true);
    assert!(!local.no_controlled_entity && !local.controlled_interpolated && !local.missing_predicted_clone);
}

#[test]
fn control_tag_step_binds_only_the_predicted_copy() {
    let c = |bits: u64, guid: u128, predicted: bool| ControlCandidate {
        entity_bits: bits,
        guid,
        is_player_anchor: false,
        is_predicted: predicted,
        is_interpolated: false,
    };
    let candidates = vec![c(9, 7, false), c(4, 7, true), c(2, 8, true)];
    let step = sync_controlled_entity_tags(&candidates, Some(7), Some(1), &vec![9, 2], &vec![2]);
    assert_eq!(step.target, Some(4));
    assert_eq!(step.missing_predicted, Some(false));
    let mut removed = step.plan.remove_controlled.clone();
    removed.sort();
    assert_eq!(removed, vec![2, 9]);
    assert_eq!(step.plan.remove_motion_writer, vec![2]);

    let waiting = sync_controlled_entity_tags(&vec![c(9, 7, false)], Some(7), Some(1), &vec![9], &Vec::new());
    assert_eq!(waiting.target, None);
    assert_eq!(waiting.missing_predicted, Some(true));
    assert_eq!(waiting.plan.remove_controlled, vec![9]);

    let none = sync_controlled_entity_tags(&candidates, None, Some(1), &Vec::new(), &Vec::new());
    assert_eq!(none.target, None);
    assert_eq!(none.missing_predicted, None);
}
