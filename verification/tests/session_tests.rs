use sidereal_client::control::ClientAppState;
use sidereal_client::session::{
    apply_auth_result, apply_enter_world_result, apply_headless_account_switch_system, apply_session_ready,
    asset_bootstrap_failed_status, auth_reset_outcome, plan_auth_bind_messages,
    receive_lightyear_session_denied_messages, submit_asset_bootstrap_request, submit_auth_request,
    submit_enter_world_request, validate_world_entry_transport, watch_session_ready_timeout_system,
    AssetBootstrapRequestState, AuthAction, AuthBindClient, AuthRequestResult, CharacterSelectionState,
    ClientAuthSyncState, ClientSession, EnterWorldRequestResult, FocusField, HeadlessAccountSwitchPlan,
    SessionDeniedMessage, SessionReadyOutcome, SessionReadyWatchdogState,
};

fn fresh_bootstrap() -> AssetBootstrapRequestState {
    AssetBootstrapRequestState { pending: false, submitted: false, completed: false, failed: false }
}

fn fresh_selection() -> CharacterSelectionState {
    CharacterSelectionState { characters: Vec::new(), selected_player_entity_id: None }
}

#[test]
fn new_session_uses_defaults_and_gateway_env() {
    let s = ClientSession::new(None);
    assert_eq!(s.gateway_url, "http://127.0.0.1:8080");
    assert_eq!(s.selected_action, AuthAction::Login);
    assert_eq!(s.focus, FocusField::Email);
    assert_eq!(s.email, "pilot@example.com");
    assert!(s.access_token.is_none());
    assert!(s.ui_dirty);
    let s = ClientSession::new(Some("https://gw.example".to_string()));
    assert_eq!(s.gateway_url, "https://gw.example");
}

#[test]
fn auth_request_is_refused_while_another_is_pending() {
    let mut s = ClientSession::new(None);
    assert!(!submit_auth_request(&mut s, true));
    assert_eq!(s.status, "Another gateway request is already in progress.");
    assert!(submit_auth_request(&mut s, false));
    assert_eq!(s.status, "Submitting request...");
}

#[test]
fn enter_world_needs_a_token() {
    let mut s = ClientSession::new(None);
    assert!(!submit_enter_world_request(&mut s, false));
    assert_eq!(s.status, "No access token; please log in again.");
    s.access_token = Some("tok".to_string());
    assert!(!submit_enter_world_request(&mut s, true));
    assert!(submit_enter_world_request(&mut s, false));
    assert_eq!(s.status, "Submitting Enter World request...");
}

#[test]
fn asset_bootstrap_request_is_not_duplicated() {
    let mut s = ClientSession::new(None);
    let mut st = fresh_bootstrap();
    assert!(!submit_asset_bootstrap_request(&mut s, &mut st));
    assert_eq!(s.status, "Missing access token for asset bootstrap.");
    assert!(!st.pending);
    s.access_token = Some("tok".to_string());
    assert!(submit_asset_bootstrap_request(&mut s, &mut st));
    assert!(st.pending && st.submitted && !st.completed && !st.failed);
    assert_eq!(s.status, "Fetching asset bootstrap manifest...");
    s.status = "unchanged".to_string();
    assert!(!submit_asset_bootstrap_request(&mut s, &mut st));
    assert_eq!(s.status, "unchanged");
}

#[test]
fn login_with_characters_moves_to_character_select() {
    let mut s = ClientSession::new(None);
    s.player_entity_id = Some("old".to_string());
    let mut sel = fresh_selection();
    let mut ready = Some("old".to_string());
    let fx = apply_auth_result(
        &mut s,
        &mut sel,
        &mut ready,
        AuthRequestResult::LoginOrRegister {
            access_token: "a".to_string(),
            refresh_token: "r".to_string(),
            account_id: "acc".to_string(),
            characters: vec!["p1".to_string(), "p2".to_string()],
        },
    );
    assert_eq!(fx.next_state, Some(ClientAppState::CharacterSelect));
    assert!(fx.error_dialog.is_none());
    assert_eq!(s.access_token.as_deref(), Some("a"));
    assert_eq!(sel.selected_player_entity_id.as_deref(), Some("p1"));
    assert!(s.player_entity_id.is_none());
    assert!(ready.is_none());
    assert_eq!(s.status, "Authenticated. Select a character and press Enter World.");
}

#[test]
fn login_without_characters_shows_a_dialog() {
    let mut s = ClientSession::new(None);
    let mut sel = fresh_selection();
    let mut ready = None;
    let fx = apply_auth_result(
        &mut s,
        &mut sel,
        &mut ready,
        AuthRequestResult::LoginOrRegister {
            access_token: "a".to_string(),
            refresh_token: "r".to_string(),
            account_id: "acc".to_string(),
            characters: Vec::new(),
        },
    );
    assert!(fx.next_state.is_none());
    assert!(fx.error_dialog.is_some());
    assert_eq!(s.status, "Authenticated but no characters are available.");
}

#[test]
fn auth_error_and_reset_results_update_status() {
    let mut s = ClientSession::new(None);
    let mut sel = fresh_selection();
    let mut ready = None;
    let fx = apply_auth_result(&mut s, &mut sel, &mut ready, AuthRequestResult::Error("boom".to_string()));
    assert_eq!(s.status, "boom");
    assert_eq!(fx.error_dialog, Some(("Gateway Request Failed".to_string(), "boom".to_string())));
    let r = auth_reset_outcome(AuthAction::ForgotRequest, Some("tkn".to_string()));
    apply_auth_result(&mut s, &mut sel, &mut ready, r);
    assert_eq!(s.reset_token, "tkn");
    assert_eq!(s.status, "Password reset token requested. Use F4 to confirm reset.");
    let r = auth_reset_outcome(AuthAction::ForgotConfirm, None);
    apply_auth_result(&mut s, &mut sel, &mut ready, r);
    assert_eq!(s.status, "Password reset confirmed. Switch to Login (F1).");
}

#[test]
fn browser_world_entry_needs_webtransport_details() {
    assert!(validate_world_entry_transport(false, &None, &None).is_ok());
    let e = validate_world_entry_transport(true, &Some("  ".to_string()), &Some("abc".to_string())).unwrap_err();
    assert!(e.contains("WebTransport address"));
    let e = validate_world_entry_transport(true, &Some("host:1".to_string()), &None).unwrap_err();
    assert!(e.contains("certificate digest"));
    assert!(validate_world_entry_transport(true, &Some("host:1".to_string()), &Some("abc".to_string())).is_ok());
}

#[test]
fn accepted_world_entry_sets_player_and_resets_bootstrap() {
    let mut s = ClientSession::new(None);
    let mut b = AssetBootstrapRequestState { pending: false, submitted: true, completed: true, failed: true };
    let fx = apply_enter_world_result(
        &mut s,
        &mut b,
        EnterWorldRequestResult::Accepted { player_entity_id: "p1".to_string() },
        Ok(()),
    );
    assert!(fx.world_entry_accepted);
    assert_eq!(fx.next_state, Some(ClientAppState::WorldLoading));
    assert_eq!(s.player_entity_id.as_deref(), Some("p1"));
    assert!(!b.submitted && !b.completed && !b.failed);
    let fx = apply_enter_world_result(
        &mut s,
        &mut b,
        EnterWorldRequestResult::Accepted { player_entity_id: "p2".to_string() },
        Err("no transport".to_string()),
    );
    assert!(!fx.world_entry_accepted);
    assert_eq!(s.player_entity_id.as_deref(), Some("p1"));
    assert_eq!(fx.error_dialog.unwrap().0, "Browser Transport Unavailable");
    let fx = apply_enter_world_result(
        &mut s,
        &mut b,
        EnterWorldRequestResult::Rejected { reason: "full".to_string() },
        Ok(()),
    );
    assert_eq!(s.status, "full");
    assert!(fx.error_dialog.is_none());
}

#[test]
fn headless_account_switch_happens_once_after_its_time() {
    let mut s = ClientSession::new(None);
    let mut plan = HeadlessAccountSwitchPlan {
        switch_after_ms: 1000,
        switched: false,
        next_player_entity_id: "p2".to_string(),
        next_access_token: "t2".to_string(),
    };
    assert!(!apply_headless_account_switch_system(&mut s, &mut plan, 999));
    assert!(s.player_entity_id.is_none());
    assert!(apply_headless_account_switch_system(&mut s, &mut plan, 1000));
    assert_eq!(s.player_entity_id.as_deref(), Some("p2"));
    assert_eq!(s.access_token.as_deref(), Some("t2"));
    assert!(!apply_headless_account_switch_system(&mut s, &mut plan, 5000));
}

#[test]
fn auth_bind_is_sent_once_then_resent_while_not_ready() {
    let mut st = ClientAuthSyncState {
        sent_for_client_entities: Vec::new(),
        last_sent_at_ms_by_client_entity: Vec::new(),
        last_player_entity_id: None,
    };
    let clients = vec![
        AuthBindClient { entity_bits: 7, connected: true, has_control_sender: true },
        AuthBindClient { entity_bits: 8, connected: false, has_control_sender: true },
    ];
    let p = Some("p1".to_string());
    assert!(plan_auth_bind_messages(&mut st, false, true, &p, false, &clients, 1000).is_empty());
    assert_eq!(plan_auth_bind_messages(&mut st, true, true, &p, false, &clients, 1000), vec![7]);
    assert!(plan_auth_bind_messages(&mut st, true, true, &p, false, &clients, 1200).is_empty());
    assert_eq!(plan_auth_bind_messages(&mut st, true, true, &p, false, &clients, 1500), vec![7]);
    assert!(plan_auth_bind_messages(&mut st, true, true, &p, true, &clients, 9000).is_empty());
    let other = Some("p2".to_string());
    assert_eq!(plan_auth_bind_messages(&mut st, true, true, &other, true, &clients, 9000), vec![7]);
}

#[test]
fn session_ready_checks_the_protocol_version() {
    let mut ready = None;
    let mut cleanup = false;
    assert_eq!(apply_session_ready(&mut ready, &mut cleanup, "p1".to_string(), 2, 3), SessionReadyOutcome::ProtocolMismatch);
    assert!(cleanup);
    assert!(ready.is_none());
    cleanup = false;
    assert_eq!(apply_session_ready(&mut ready, &mut cleanup, "p1".to_string(), 3, 3), SessionReadyOutcome::Ready);
    assert_eq!(ready.as_deref(), Some("p1"));
    assert!(!cleanup);
}

#[test]
fn session_ready_watchdog_times_out() {
    let mut w = SessionReadyWatchdogState { started_at_ms: None };
    let mut cleanup = false;
    assert!(!watch_session_ready_timeout_system(&mut w, &mut cleanup, true, false, 5000, 100));
    assert_eq!(w.started_at_ms, Some(100));
    assert!(!watch_session_ready_timeout_system(&mut w, &mut cleanup, true, false, 5000, 5099));
    assert!(watch_session_ready_timeout_system(&mut w, &mut cleanup, true, false, 5000, 5100));
    assert!(cleanup);
    assert!(w.started_at_ms.is_none());
    let mut cleanup = false;
    let mut w = SessionReadyWatchdogState { started_at_ms: Some(1) };
    assert!(!watch_session_ready_timeout_system(&mut w, &mut cleanup, true, true, 5000, 100000));
    assert!(w.started_at_ms.is_none());
}

#[test]
fn session_denied_for_local_player_returns_to_character_select() {
    let msgs = vec![
        SessionDeniedMessage { player_entity_id: Some("other".to_string()), reason: "x".to_string() },
        SessionDeniedMessage { player_entity_id: None, reason: "bad".to_string() },
        SessionDeniedMessage { player_entity_id: Some("me".to_string()), reason: "banned".to_string() },
    ];
    let mut next = None;
    let dialogs = receive_lightyear_session_denied_messages(&Some("me".to_string()), &msgs, &mut next);
    assert_eq!(
        dialogs,
        vec!["The server denied your session.\n\nReason: banned\n\nReturning to character select.".to_string()]
    );
    assert_eq!(next, Some(ClientAppState::CharacterSelect));
    let mut next = None;
    assert!(receive_lightyear_session_denied_messages(&None, &msgs, &mut next).is_empty());
    assert!(next.is_none());
}

#[test]
fn asset_bootstrap_failure_status_names_the_error() {
    assert_eq!(asset_bootstrap_failed_status(&"timeout".to_string()), "Asset bootstrap failed: timeout");
}

use sidereal_client::session::{active_field_mut, is_printable_char, mask};

#[test]
fn secrets_are_masked_and_fields_edited_in_place() {
    assert_eq!(mask("héllo"), "*****");
    assert_eq!(mask(""), "");
    assert!(is_printable_char('a'));
    assert!(is_printable_char('é'));
    assert!(!is_printable_char('\n'));
    assert!(!is_printable_char('\u{7f}'));
    assert!(!is_printable_char('\u{e000}'));
    assert!(!is_printable_char('\u{10fffd}'));
    let mut s = ClientSession::new(None);
    s.focus = FocusField::Password;
    active_field_mut(&mut s).push_str("!");
    assert_eq!(s.password, "very-strong-password!");
    assert_eq!(s.email, "pilot@example.com");
    s.focus = FocusField::ResetToken;
    active_field_mut(&mut s).push_str("tok");
    assert_eq!(s.reset_token, "tok");
}

use sidereal_client::session::configure_headless_session_from_env;

#[test]
fn headless_session_is_configured_from_its_environment() {
    let mut s = ClientSession::new(None);
    let plan = configure_headless_session_from_env(&mut s, Some("p1".to_string()), Some("t1".to_string()), Some("p2".to_string()), None, 1000);
    assert!(plan.is_none());
    assert_eq!(s.player_entity_id.as_deref(), Some("p1"));
    assert_eq!(s.access_token.as_deref(), Some("t1"));
    let plan = configure_headless_session_from_env(&mut s, None, None, Some("p2".to_string()), Some("t2".to_string()), 2500).unwrap();
    assert_eq!(s.player_entity_id.as_deref(), Some("p1"));
    assert_eq!(plan.next_player_entity_id, "p2");
    assert_eq!(plan.next_access_token, "t2");
    assert_eq!(plan.switch_after_ms, 2500);
    assert!(!plan.switched);
}
