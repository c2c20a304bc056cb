//! Logout: a disconnect notice goes out one frame before the transport disconnects, then the
//! session state is cleared and the client returns to the auth screen.

use vstd::prelude::*;
use crate::control::{ov, ClientAppState, ClientControlRequestState, LocalPlayerViewState};
use crate::adoption::RuntimeEntityEntry;
use crate::session::{ClientSession, ClientAuthSyncState, CharacterSelectionState, AssetBootstrapRequestState};
use crate::asset_cache::LocalAssetManager;
use crate::watchdog::BootstrapWatchdogState;
use crate::input_send::ClientInputAckTracker;

verus! {

/// What the library keeps of the free camera: whether it was placed yet (its position is a
/// float, kept beside it by the caller and reset with it).
#[derive(Debug)]
pub struct FreeCameraState {
    pub initialized: bool,
}

/// A pending logout: the player to notify about, and whether the notice went out.
#[derive(Debug)]
pub struct PendingDisconnect {
    pub player_entity_id: Option<String>,
    pub notify_sent: bool,
}

impl PendingDisconnect {
    pub fn new() -> (r: Self)
        ensures
            r.player_entity_id is None,
            !r.notify_sent,
    {
        PendingDisconnect { player_entity_id: None, notify_sent: false }
    }
}

/// Starts a logout for the session's player when asked (a window close or a UI request);
/// nothing changes while a logout is pending or without a player.
pub fn request_logout(pending: &mut PendingDisconnect, player_entity_id: &Option<String>, requested: bool) -> (started: bool)
    ensures
        started == (old(pending).player_entity_id is None && requested && player_entity_id is Some),
        started ==> ov(final(pending).player_entity_id) == ov(*player_entity_id) && !final(pending).notify_sent,
        !started ==> *final(pending) == *old(pending),
{
    if pending.player_entity_id.is_some() || !requested {
        return false;
    }
    match player_entity_id {
        Some(p) => {
            pending.player_entity_id = Some(p.clone());
            pending.notify_sent = false;
            true
        },
        None => false,
    }
}

/// Handles a disconnect request from the UI: the request is consumed when no logout is
/// pending, and a logout starts when the session has a player.
pub fn request_logout_from_ui(
    pending: &mut PendingDisconnect,
    disconnect_request: &mut bool,
    player_entity_id: &Option<String>,
) -> (started: bool)
    ensures
        old(pending).player_entity_id is Some ==> !started && *final(pending) == *old(pending) && *final(disconnect_request)
            == *old(disconnect_request),
        old(pending).player_entity_id is None ==> !*final(disconnect_request) && started == (*old(disconnect_request)
            && player_entity_id is Some),
        started ==> ov(final(pending).player_entity_id) == ov(*player_entity_id) && !final(pending).notify_sent,
        !started ==> *final(pending) == *old(pending),
{
    if pending.player_entity_id.is_some() {
        return false;
    }
    if !*disconnect_request {
        return false;
    }
    *disconnect_request = false;
    request_logout(pending, player_entity_id, true)
}

/// What the disconnect step does this frame.
#[derive(Debug)]
pub enum DisconnectStep {
    /// No logout is pending.
    Idle,
    /// Send the disconnect notice for this player.
    SendNotify(String),
    /// The notice went out a frame ago: disconnect the transports; cleanup is requested.
    Disconnect,
}

/// Advances a pending logout by one frame: first the notice, then the disconnect.
pub fn step_disconnect(pending: &mut PendingDisconnect, cleanup_requested: &mut bool) -> (r: DisconnectStep)
    ensures
        match old(pending).player_entity_id {
            None => r is Idle && *final(pending) == *old(pending) && *final(cleanup_requested) == *old(cleanup_requested),
            Some(p) => if !old(pending).notify_sent {
                &&& r matches DisconnectStep::SendNotify(q) && q@ == p@
                &&& final(pending).notify_sent
                &&& ov(final(pending).player_entity_id) == Some(p@)
                &&& *final(cleanup_requested) == *old(cleanup_requested)
            } else {
                &&& r is Disconnect
                &&& final(pending).player_entity_id is None
                &&& !final(pending).notify_sent
                &&& *final(cleanup_requested)
            },
        },
{
    let player = match &pending.player_entity_id {
        Some(p) => p.clone(),
        None => return DisconnectStep::Idle,
    };
    if !pending.notify_sent {
        pending.notify_sent = true;
        return DisconnectStep::SendNotify(player);
    }
    pending.player_entity_id = None;
    pending.notify_sent = false;
    *cleanup_requested = true;
    DisconnectStep::Disconnect
}

/// Clears the session after a logout, when cleanup was requested: the client returns to the
/// auth screen (the next state is returned), the entity registries are emptied and the
/// session, bootstrap, control, view, selection, session-ready, free camera, watchdog, ack and
/// logout states start over. Without a request nothing changes.
pub fn logout_cleanup(
    cleanup_requested: &mut bool,
    session: &mut ClientSession,
    remote_registry: &mut Vec<RuntimeEntityEntry>,
    entity_registry: &mut Vec<RuntimeEntityEntry>,
    asset_manager: &mut LocalAssetManager,
    auth_state: &mut ClientAuthSyncState,
    control_request_state: &mut ClientControlRequestState,
    player_view_state: &mut LocalPlayerViewState,
    character_selection: &mut CharacterSelectionState,
    ready_player_entity_id: &mut Option<String>,
    free_camera: &mut FreeCameraState,
    watchdog: &mut BootstrapWatchdogState,
    ack_tracker: &mut ClientInputAckTracker,
    pending: &mut PendingDisconnect,
) -> (next_state: Option<ClientAppState>)
    ensures
        next_state == if *old(cleanup_requested) { Some(ClientAppState::Auth) } else { None },
        !*old(cleanup_requested) ==> {
            &&& *final(session) == *old(session)
            &&& *final(remote_registry) == *old(remote_registry)
            &&& *final(entity_registry) == *old(entity_registry)
            &&& *final(free_camera) == *old(free_camera)
            &&& *final(asset_manager) == *old(asset_manager)
            &&& *final(auth_state) == *old(auth_state)
            &&& *final(control_request_state) == *old(control_request_state)
            &&& *final(player_view_state) == *old(player_view_state)
            &&& *final(character_selection) == *old(character_selection)
            &&& *final(ready_player_entity_id) == *old(ready_player_entity_id)
            &&& *final(watchdog) == *old(watchdog)
            &&& *final(ack_tracker) == *old(ack_tracker)
            &&& *final(pending) == *old(pending)
            &&& !*final(cleanup_requested)
        },
        *old(cleanup_requested) ==> {
            &&& !*final(cleanup_requested)
            &&& final(remote_registry)@.len() == 0
            &&& final(entity_registry)@.len() == 0
            &&& !final(free_camera).initialized
            &&& final(session).account_id is None
            &&& final(session).player_entity_id is None
            &&& final(session).access_token is None
            &&& final(session).refresh_token is None
            &&& final(session).status@ == "Logged out. Back on auth screen."@
            &&& final(session).ui_dirty
            &&& !final(asset_manager).bootstrap_manifest_seen
            &&& !final(asset_manager).bootstrap_phase_complete
            &&& final(asset_manager).bootstrap_total_bytes == 0
            &&& final(asset_manager).bootstrap_ready_bytes == 0
            &&& final(asset_manager).records_by_asset_id == old(asset_manager).records_by_asset_id
            &&& final(asset_manager).catalog_by_asset_id == old(asset_manager).catalog_by_asset_id
            &&& final(asset_manager).cache_index == old(asset_manager).cache_index
            &&& final(auth_state).sent_for_client_entities@.len() == 0
            &&& final(auth_state).last_sent_at_ms_by_client_entity@.len() == 0
            &&& final(auth_state).last_player_entity_id is None
            &&& final(control_request_state).next_request_seq == 0
            &&& final(control_request_state).pending_request_seq is None
            &&& final(control_request_state).pending_controlled_entity_id is None
            &&& final(control_request_state).last_sent_request_seq is None
            &&& final(player_view_state).controlled_entity_id is None
            &&& final(player_view_state).desired_controlled_entity_id is None
            &&& final(player_view_state).selected_entity_id is None
            &&& !final(player_view_state).detached_free_camera
            &&& final(character_selection).characters@.len() == 0
            &&& final(character_selection).selected_player_entity_id is None
            &&& *final(ready_player_entity_id) is None
            &&& final(watchdog).in_world_entered_at_ms is None
            &&& !final(watchdog).replication_state_seen
            &&& !final(watchdog).timeout_dialog_shown
            &&& !final(watchdog).stream_stall_dialog_shown
            &&& !final(watchdog).no_world_state_dialog_shown
            &&& !final(watchdog).asset_manifest_seen
            &&& final(watchdog).last_bootstrap_ready_bytes == 0
            &&& final(watchdog).last_bootstrap_progress_at_ms == 0
            &&& final(control_request_state).last_sent_at_ms == 0
            &&& final(session).gateway_url == old(session).gateway_url
            &&& final(session).selected_action == old(session).selected_action
            &&& final(session).focus == old(session).focus
            &&& final(session).email == old(session).email
            &&& final(session).password == old(session).password
            &&& final(session).reset_token == old(session).reset_token
            &&& final(session).new_password == old(session).new_password
            &&& final(ack_tracker).pending_ticks@.len() == 0
            &&& final(pending).player_entity_id is None
            &&& !final(pending).notify_sent
        },
{
    if !*cleanup_requested {
        return None;
    }
    *cleanup_requested = false;
    *remote_registry = Vec::new();
    *entity_registry = Vec::new();
    free_camera.initialized = false;
    session.account_id = None;
    session.player_entity_id = None;
    session.access_token = None;
    session.refresh_token = None;
    session.status = "Logged out. Back on auth screen.".to_string();
    session.ui_dirty = true;
    asset_manager.bootstrap_manifest_seen = false;
    asset_manager.bootstrap_phase_complete = false;
    asset_manager.bootstrap_total_bytes = 0;
    asset_manager.bootstrap_ready_bytes = 0;
    auth_state.sent_for_client_entities = Vec::new();
    auth_state.last_sent_at_ms_by_client_entity = Vec::new();
    auth_state.last_player_entity_id = None;
    *control_request_state = ClientControlRequestState::new();
    *player_view_state = LocalPlayerViewState {
        controlled_entity_id: None,
        desired_controlled_entity_id: None,
        selected_entity_id: None,
        detached_free_camera: false,
    };
    *character_selection = CharacterSelectionState { characters: Vec::new(), selected_player_entity_id: None };
    *ready_player_entity_id = None;
    *watchdog = BootstrapWatchdogState {
        in_world_entered_at_ms: None,
        replication_state_seen: false,
        asset_manifest_seen: false,
        last_bootstrap_ready_bytes: 0,
        last_bootstrap_progress_at_ms: 0,
        timeout_dialog_shown: false,
        stream_stall_dialog_shown: false,
        no_world_state_dialog_shown: false,
    };
    *ack_tracker = ClientInputAckTracker::new();
    *pending = PendingDisconnect::new();
    Some(ClientAppState::Auth)
}

/// After a logout cleanup, the UI's disconnect request, pause menu and asset bootstrap
/// request start over.
pub fn reset_logout_flags(
    cleanup_requested: bool,
    disconnect_request: &mut bool,
    pause_menu_open: &mut bool,
    bootstrap: &mut AssetBootstrapRequestState,
)
    ensures
        cleanup_requested ==> !*final(disconnect_request) && !*final(pause_menu_open) && !final(bootstrap).pending
            && !final(bootstrap).submitted && !final(bootstrap).completed && !final(bootstrap).failed,
        !cleanup_requested ==> *final(disconnect_request) == *old(disconnect_request) && *final(pause_menu_open)
            == *old(pause_menu_open) && *final(bootstrap) == *old(bootstrap),
{
    if cleanup_requested {
        *disconnect_request = false;
        *pause_menu_open = false;
        *bootstrap = AssetBootstrapRequestState { pending: false, submitted: false, completed: false, failed: false };
    }
}

} // verus!
