//! Control handover: which entity the local player asks to control, how the server's answers
//! change the view, and which local copy of the target carries local control.

use vstd::prelude::*;
use crate::guid::{uuid_display, uuid_to_string};
use crate::assets::{str_views, contains_string};
use crate::text::str_eq;

verus! {

/// The application states of the client.
#[derive(Debug, Clone, Copy, PartialEq, Eq)]
pub enum ClientAppState {
    Auth,
    CharacterSelect,
    WorldLoading,
    AssetLoading,
    InWorld,
}

/// The client is in (or entering) the world, or runs headless.
pub open spec fn active_world_state_spec(state: Option<ClientAppState>, headless: bool) -> bool {
    (state matches Some(s) && (s == ClientAppState::InWorld || s == ClientAppState::WorldLoading
        || s == ClientAppState::AssetLoading)) || headless
}

/// The client is in (or entering) the world, or runs headless.
pub fn is_active_world_state(state: Option<ClientAppState>, headless: bool) -> (r: bool)
    ensures
        r == active_world_state_spec(state, headless),
{
    match state {
        Some(ClientAppState::InWorld) | Some(ClientAppState::WorldLoading) | Some(ClientAppState::AssetLoading) => true,
        _ => headless,
    }
}

/// What the local player controls, wants to control and has selected.
#[derive(Debug)]
pub struct LocalPlayerViewState {
    pub controlled_entity_id: Option<String>,
    pub desired_controlled_entity_id: Option<String>,
    pub selected_entity_id: Option<String>,
    pub detached_free_camera: bool,
}

/// The control request in progress. Times are in milliseconds.
#[derive(Debug)]
pub struct ClientControlRequestState {
    pub next_request_seq: u64,
    pub pending_controlled_entity_id: Option<String>,
    pub pending_request_seq: Option<u64>,
    pub last_sent_request_seq: Option<u64>,
    pub last_sent_at_ms: u64,
}

/// What the control debug log last reported, and the handover being audited.
#[derive(Debug)]
pub struct ClientControlDebugState {
    pub last_controlled_entity_id: Option<String>,
    pub last_pending_controlled_entity_id: Option<String>,
    pub last_detached_free_camera: bool,
    pub handover_audit_entity_id: Option<String>,
    pub handover_audit_started_at_ms: Option<u64>,
    pub last_handover_audit_log_at_ms: u64,
}

/// A control request to send.
#[derive(Debug)]
pub struct ClientControlRequestMessage {
    pub player_entity_id: String,
    pub controlled_entity_id: Option<String>,
    pub request_seq: u64,
}

/// A request is resent at most this often, in milliseconds.
pub const CONTROL_REQUEST_RESEND_INTERVAL_MS: u64 = 500;

/// The optional string, as characters.
pub open spec fn ov(s: Option<String>) -> Option<Seq<char>> {
    match s {
        Some(v) => Some(v@),
        None => None,
    }
}

/// Two entity ids name the same entity, given the GUIDs found in each.
pub open spec fn same_entity(a: Seq<char>, b: Seq<char>, ga: Option<u128>, gb: Option<u128>) -> bool {
    a == b || (ga is Some && ga == gb)
}

/// A copy of an optional string.
pub fn clone_opt(s: &Option<String>) -> (r: Option<String>)
    ensures
        ov(r) == ov(*s),
{
    match s {
        Some(v) => Some(v.clone()),
        None => None,
    }
}

/// Whether two optional strings hold the same text.
pub fn opt_str_eq(a: &Option<String>, b: &Option<String>) -> (r: bool)
    ensures
        r == (ov(*a) == ov(*b)),
{
    match (a, b) {
        (Some(x), Some(y)) => *x == *y,
        (None, None) => true,
        _ => false,
    }
}

impl ClientControlRequestState {
    pub fn new() -> (r: Self)
        ensures
            r.next_request_seq == 0,
            r.pending_controlled_entity_id is None,
            r.pending_request_seq is None,
            r.last_sent_request_seq is None,
            r.last_sent_at_ms == 0,
    {
        ClientControlRequestState {
            next_request_seq: 0,
            pending_controlled_entity_id: None,
            pending_request_seq: None,
            last_sent_request_seq: None,
            last_sent_at_ms: 0,
        }
    }
}

/// Plans the control request of this frame. Without an active world, a canonical player id
/// or a connected sender nothing happens. With no request pending, a desired target (the
/// desired one, else the controlled one) that differs from the controlled entity opens a new
/// request with the next sequence number. The pending request is sent unless the same one was
/// sent less than half a second ago.
pub fn plan_control_request(
    request_state: &mut ClientControlRequestState,
    view: &LocalPlayerViewState,
    desired_guid: Option<u128>,
    controlled_guid: Option<u128>,
    canonical_player_entity_id: &Option<String>,
    active_world_state: bool,
    has_senders: bool,
    now_ms: u64,
) -> (msg: Option<ClientControlRequestMessage>)
    ensures
        !active_world_state || canonical_player_entity_id is None || !has_senders ==> msg is None
            && *final(request_state) == *old(request_state),
        active_world_state && canonical_player_entity_id is Some && has_senders ==> {
            let desired = if view.desired_controlled_entity_id is Some {
                ov(view.desired_controlled_entity_id)
            } else {
                ov(view.controlled_entity_id)
            };
            let dg = if view.desired_controlled_entity_id is Some { desired_guid } else { controlled_guid };
            let opens = old(request_state).pending_request_seq is None && desired is Some && (view.controlled_entity_id is None
                || !same_entity(desired.unwrap(), view.controlled_entity_id.unwrap()@, dg, controlled_guid));
            let seq = old(request_state).next_request_seq.saturating_add(1);
            let pending = if opens { Some(seq) } else { old(request_state).pending_request_seq };
            let last_sent = if opens { None } else { old(request_state).last_sent_request_seq };
            let last_at = if opens { 0u64 } else { old(request_state).last_sent_at_ms };
            &&& final(request_state).next_request_seq == if opens { seq } else { old(request_state).next_request_seq }
            &&& ov(final(request_state).pending_controlled_entity_id) == if opens {
                desired
            } else {
                ov(old(request_state).pending_controlled_entity_id)
            }
            &&& final(request_state).pending_request_seq == pending
            &&& match pending {
                None => msg is None && final(request_state).last_sent_request_seq == last_sent
                    && final(request_state).last_sent_at_ms == last_at,
                Some(s) => if last_sent == Some(s) && (now_ms as int - last_at as int) < (CONTROL_REQUEST_RESEND_INTERVAL_MS as int) {
                    msg is None && final(request_state).last_sent_request_seq == last_sent
                        && final(request_state).last_sent_at_ms == last_at
                } else {
                    &&& msg matches Some(m) && m.request_seq == s && ov(m.controlled_entity_id) == ov(
                        final(request_state).pending_controlled_entity_id,
                    ) && m.player_entity_id@ == canonical_player_entity_id.unwrap()@
                    &&& final(request_state).last_sent_request_seq == Some(s)
                    &&& final(request_state).last_sent_at_ms == now_ms
                },
            }
        },
{
    if !active_world_state || !has_senders {
        return None;
    }
    let player = match canonical_player_entity_id {
        Some(p) => p,
        None => return None,
    };
    if request_state.pending_request_seq.is_none() {
        let (desired, dg) = match &view.desired_controlled_entity_id {
            Some(d) => (Some(d.clone()), desired_guid),
            None => (clone_opt(&view.controlled_entity_id), controlled_guid),
        };
        match desired {
            Some(d) => {
                let changed = match &view.controlled_entity_id {
                    None => true,
                    Some(current) => {
                        let same = *current == d || match (dg, controlled_guid) {
                            (Some(a), Some(b)) => a == b,
                            _ => false,
                        };
                        !same
                    },
                };
                if changed {
                    request_state.next_request_seq = request_state.next_request_seq.saturating_add(1);
                    request_state.pending_controlled_entity_id = Some(d);
                    request_state.pending_request_seq = Some(request_state.next_request_seq);
                    request_state.last_sent_request_seq = None;
                    request_state.last_sent_at_ms = 0;
                }
            },
            None => {},
        }
    }
    let seq = match request_state.pending_request_seq {
        Some(s) => s,
        None => return None,
    };
    let recently_sent = match request_state.last_sent_request_seq {
        Some(last) => last == seq && (now_ms < request_state.last_sent_at_ms
            || now_ms - request_state.last_sent_at_ms < CONTROL_REQUEST_RESEND_INTERVAL_MS),
        None => false,
    };
    if recently_sent {
        return None;
    }
    let message = ClientControlRequestMessage {
        player_entity_id: player.clone(),
        controlled_entity_id: clone_opt(&request_state.pending_controlled_entity_id),
        request_seq: seq,
    };
    request_state.last_sent_at_ms = now_ms;
    request_state.last_sent_request_seq = Some(seq);
    Some(message)
}

/// Starts the audit of a control handover to the entity now controlled.
fn start_handover_audit(debug: &mut ClientControlDebugState, controlled: &Option<String>, now_ms: u64)
    ensures
        ov(final(debug).handover_audit_entity_id) == ov(*controlled),
        final(debug).handover_audit_started_at_ms == Some(now_ms),
        final(debug).last_handover_audit_log_at_ms == 0,
        ov(final(debug).last_controlled_entity_id) == ov(old(debug).last_controlled_entity_id),
        ov(final(debug).last_pending_controlled_entity_id) == ov(old(debug).last_pending_controlled_entity_id),
        final(debug).last_detached_free_camera == old(debug).last_detached_free_camera,
{
    debug.handover_audit_entity_id = clone_opt(controlled);
    debug.handover_audit_started_at_ms = Some(now_ms);
    debug.last_handover_audit_log_at_ms = 0;
}

/// Clears the pending request when the answer is for it.
fn settle_pending_request(request_state: &mut ClientControlRequestState, request_seq: u64)
    ensures
        old(request_state).pending_request_seq == Some(request_seq) ==> final(request_state).pending_controlled_entity_id is None
            && final(request_state).pending_request_seq is None && final(request_state).last_sent_request_seq is None,
        old(request_state).pending_request_seq != Some(request_seq) ==> *final(request_state) == *old(request_state),
        final(request_state).next_request_seq == old(request_state).next_request_seq,
        final(request_state).last_sent_at_ms == old(request_state).last_sent_at_ms,
{
    if request_state.pending_request_seq == Some(request_seq) {
        request_state.pending_controlled_entity_id = None;
        request_state.pending_request_seq = None;
        request_state.last_sent_request_seq = None;
    }
}

/// What applying an acceptance does: the request it answers is settled, the acknowledged
/// entity (the player's own entity when none) becomes controlled and desired, and the
/// handover audit starts.
pub open spec fn control_ack_applied(
    rs0: ClientControlRequestState,
    rs1: ClientControlRequestState,
    v0: LocalPlayerViewState,
    v1: LocalPlayerViewState,
    d1: ClientControlDebugState,
    local: Seq<char>,
    controlled: Option<Seq<char>>,
    request_seq: u64,
    now_ms: u64,
) -> bool {
    &&& rs0.pending_request_seq == Some(request_seq) ==> rs1.pending_controlled_entity_id is None
        && rs1.pending_request_seq is None && rs1.last_sent_request_seq is None
    &&& rs0.pending_request_seq != Some(request_seq) ==> rs1 == rs0
    &&& ov(v1.controlled_entity_id) == Some(match controlled { Some(c) => c, None => local })
    &&& ov(v1.desired_controlled_entity_id) == ov(v1.controlled_entity_id)
    &&& ov(v1.selected_entity_id) == ov(v0.selected_entity_id)
    &&& v1.detached_free_camera == v0.detached_free_camera
    &&& ov(d1.handover_audit_entity_id) == ov(v1.controlled_entity_id)
    &&& d1.handover_audit_started_at_ms == Some(now_ms)
    &&& d1.last_handover_audit_log_at_ms == 0
}

/// What applying a rejection does: the request it answers is settled; the authoritative
/// entity, if given, becomes controlled (else the player's own entity when nothing is
/// controlled); desired follows controlled, and the handover audit starts.
pub open spec fn control_reject_applied(
    rs0: ClientControlRequestState,
    rs1: ClientControlRequestState,
    v0: LocalPlayerViewState,
    v1: LocalPlayerViewState,
    d1: ClientControlDebugState,
    local: Seq<char>,
    authoritative: Option<Seq<char>>,
    request_seq: u64,
    now_ms: u64,
) -> bool {
    &&& rs0.pending_request_seq == Some(request_seq) ==> rs1.pending_controlled_entity_id is None
        && rs1.pending_request_seq is None && rs1.last_sent_request_seq is None
    &&& rs0.pending_request_seq != Some(request_seq) ==> rs1 == rs0
    &&& ov(v1.controlled_entity_id) == match authoritative {
        Some(a) => Some(a),
        None => if v0.controlled_entity_id is None { Some(local) } else { ov(v0.controlled_entity_id) },
    }
    &&& ov(v1.desired_controlled_entity_id) == ov(v1.controlled_entity_id)
    &&& ov(v1.selected_entity_id) == ov(v0.selected_entity_id)
    &&& v1.detached_free_camera == v0.detached_free_camera
    &&& ov(d1.handover_audit_entity_id) == ov(v1.controlled_entity_id)
    &&& d1.handover_audit_started_at_ms == Some(now_ms)
    &&& d1.last_handover_audit_log_at_ms == 0
}

/// A control result from the server, with the player it names in canonical form (`None`
/// where that id does not parse).
#[derive(Debug)]
pub enum ControlResultMessage {
    Ack { player_entity_id: Option<String>, request_seq: u64, controlled_entity_id: Option<String> },
    Reject {
        player_entity_id: Option<String>,
        request_seq: u64,
        authoritative_controlled_entity_id: Option<String>,
        reason: String,
    },
}

/// What became of a control result.
#[derive(Debug, Clone, Copy, PartialEq, Eq)]
pub enum ControlResultOutcome {
    /// It is not for the local player (or the local player is unknown): nothing changed.
    Ignored,
    Acked,
    /// Rejected; `duplicate_stale` when it repeats a stale sequence number, not worth a warning.
    Rejected { duplicate_stale: bool },
}

/// Handles one control result. Only results for the local player count: the session's
/// player (`local_player_entity_id`) must be known and parse (`local_player_id`, its canonical
/// form), and the message must name that same player; any other result changes nothing.
pub fn receive_lightyear_control_results(
    request_state: &mut ClientControlRequestState,
    view: &mut LocalPlayerViewState,
    debug: &mut ClientControlDebugState,
    local_player_entity_id: &Option<String>,
    local_player_id: &Option<String>,
    message: ControlResultMessage,
    now_ms: u64,
) -> (r: ControlResultOutcome)
    ensures
        ({
            let msg_player = match message {
                ControlResultMessage::Ack { player_entity_id, .. } => ov(player_entity_id),
                ControlResultMessage::Reject { player_entity_id, .. } => ov(player_entity_id),
            };
            let for_local = local_player_entity_id is Some && local_player_id is Some && msg_player is Some
                && msg_player == ov(*local_player_id);
            if !for_local {
                &&& r is Ignored
                &&& *final(request_state) == *old(request_state)
                &&& *final(view) == *old(view)
                &&& *final(debug) == *old(debug)
            } else {
                match message {
                    ControlResultMessage::Ack { request_seq, controlled_entity_id, .. } => {
                        &&& r is Acked
                        &&& control_ack_applied(*old(request_state), *final(request_state), *old(view), *final(view),
                            *final(debug), local_player_entity_id.unwrap()@, ov(controlled_entity_id), request_seq, now_ms)
                    },
                    ControlResultMessage::Reject { request_seq, authoritative_controlled_entity_id, reason, .. } => {
                        &&& r == ControlResultOutcome::Rejected {
                            duplicate_stale: duplicate_stale_rejection(reason@, old(request_state).pending_request_seq, request_seq),
                        }
                        &&& control_reject_applied(*old(request_state), *final(request_state), *old(view), *final(view),
                            *final(debug), local_player_entity_id.unwrap()@, ov(authoritative_controlled_entity_id), request_seq,
                            now_ms)
                    },
                }
            }
        }),
{
    let local = match local_player_entity_id {
        Some(l) => l,
        None => return ControlResultOutcome::Ignored,
    };
    let local_id = match local_player_id {
        Some(l) => l,
        None => return ControlResultOutcome::Ignored,
    };
    match message {
        ControlResultMessage::Ack { player_entity_id, request_seq, controlled_entity_id } => {
            let same = match &player_entity_id {
                Some(p) => *p == *local_id,
                None => false,
            };
            if !same {
                return ControlResultOutcome::Ignored;
            }
            apply_control_ack(request_state, view, debug, local, controlled_entity_id, request_seq, now_ms);
            ControlResultOutcome::Acked
        },
        ControlResultMessage::Reject { player_entity_id, request_seq, authoritative_controlled_entity_id, reason } => {
            let same = match &player_entity_id {
                Some(p) => *p == *local_id,
                None => false,
            };
            if !same {
                return ControlResultOutcome::Ignored;
            }
            let duplicate_stale = apply_control_reject(
                request_state,
                view,
                debug,
                local,
                authoritative_controlled_entity_id,
                &reason,
                request_seq,
                now_ms,
            );
            ControlResultOutcome::Rejected { duplicate_stale }
        },
    }
}

/// Applies the server's acceptance of a control request of the local player: the request it
/// answers is settled, the acknowledged entity (the player's own entity when none) becomes
/// both controlled and desired, and the handover audit starts.
pub fn apply_control_ack(
    request_state: &mut ClientControlRequestState,
    view: &mut LocalPlayerViewState,
    debug: &mut ClientControlDebugState,
    local_player_entity_id: &String,
    controlled_entity_id: Option<String>,
    request_seq: u64,
    now_ms: u64,
)
    ensures
        old(request_state).pending_request_seq == Some(request_seq) ==> final(request_state).pending_controlled_entity_id is None
            && final(request_state).pending_request_seq is None && final(request_state).last_sent_request_seq is None,
        old(request_state).pending_request_seq != Some(request_seq) ==> *final(request_state) == *old(request_state),
        ov(final(view).controlled_entity_id) == Some(match controlled_entity_id {
            Some(c) => c@,
            None => local_player_entity_id@,
        }),
        ov(final(view).desired_controlled_entity_id) == ov(final(view).controlled_entity_id),
        ov(final(view).selected_entity_id) == ov(old(view).selected_entity_id),
        final(view).detached_free_camera == old(view).detached_free_camera,
        ov(final(debug).handover_audit_entity_id) == ov(final(view).controlled_entity_id),
        final(debug).handover_audit_started_at_ms == Some(now_ms),
        final(debug).last_handover_audit_log_at_ms == 0,
        control_ack_applied(*old(request_state), *final(request_state), *old(view), *final(view), *final(debug),
            local_player_entity_id@, ov(controlled_entity_id), request_seq, now_ms),
{
    settle_pending_request(request_state, request_seq);
    match controlled_entity_id {
        Some(c) => view.controlled_entity_id = Some(c),
        None => view.controlled_entity_id = Some(local_player_entity_id.clone()),
    }
    view.desired_controlled_entity_id = clone_opt(&view.controlled_entity_id);
    start_handover_audit(debug, &view.controlled_entity_id, now_ms);
}

/// Whether a rejection repeats a stale sequence number that is not the pending request.
pub open spec fn duplicate_stale_rejection(reason: Seq<char>, pending_request_seq: Option<u64>, request_seq: u64) -> bool {
    reason == "stale_seq"@ && pending_request_seq != Some(request_seq)
}

/// Applies the server's rejection of a control request of the local player: the request it
/// answers is settled; the authoritative entity, if given, becomes controlled (else the
/// player's own entity when nothing is controlled); desired follows controlled, and the
/// handover audit starts. Returns whether the rejection is a duplicate of a stale sequence
/// number, which is not worth a warning.
pub fn apply_control_reject(
    request_state: &mut ClientControlRequestState,
    view: &mut LocalPlayerViewState,
    debug: &mut ClientControlDebugState,
    local_player_entity_id: &String,
    authoritative_controlled_entity_id: Option<String>,
    reason: &String,
    request_seq: u64,
    now_ms: u64,
) -> (duplicate_stale: bool)
    ensures
        duplicate_stale == duplicate_stale_rejection(reason@, old(request_state).pending_request_seq, request_seq),
        old(request_state).pending_request_seq == Some(request_seq) ==> final(request_state).pending_controlled_entity_id is None
            && final(request_state).pending_request_seq is None && final(request_state).last_sent_request_seq is None,
        old(request_state).pending_request_seq != Some(request_seq) ==> *final(request_state) == *old(request_state),
        ov(final(view).controlled_entity_id) == match authoritative_controlled_entity_id {
            Some(a) => Some(a@),
            None => if old(view).controlled_entity_id is None {
                Some(local_player_entity_id@)
            } else {
                ov(old(view).controlled_entity_id)
            },
        },
        ov(final(view).desired_controlled_entity_id) == ov(final(view).controlled_entity_id),
        ov(final(view).selected_entity_id) == ov(old(view).selected_entity_id),
        final(view).detached_free_camera == old(view).detached_free_camera,
        ov(final(debug).handover_audit_entity_id) == ov(final(view).controlled_entity_id),
        final(debug).handover_audit_started_at_ms == Some(now_ms),
        final(debug).last_handover_audit_log_at_ms == 0,
        control_reject_applied(*old(request_state), *final(request_state), *old(view), *final(view), *final(debug),
            local_player_entity_id@, ov(authoritative_controlled_entity_id), request_seq, now_ms),
{
    let pending_request_seq = request_state.pending_request_seq;
    settle_pending_request(request_state, request_seq);
    match authoritative_controlled_entity_id {
        Some(a) => view.controlled_entity_id = Some(a),
        None => {
            if view.controlled_entity_id.is_none() {
                view.controlled_entity_id = Some(local_player_entity_id.clone());
            }
        },
    }
    view.desired_controlled_entity_id = clone_opt(&view.controlled_entity_id);
    let stale = str_eq(reason.as_str(), "stale_seq");
    let duplicate_stale = stale && pending_request_seq != Some(request_seq);
    start_handover_audit(debug, &view.controlled_entity_id, now_ms);
    duplicate_stale
}

/// Records the control state for the debug log when it changed; says whether it did.
pub fn note_client_control_state_change(
    debug: &mut ClientControlDebugState,
    view: &LocalPlayerViewState,
    request_state: &ClientControlRequestState,
) -> (changed: bool)
    ensures
        changed == (ov(old(debug).last_controlled_entity_id) != ov(view.controlled_entity_id) || ov(
            old(debug).last_pending_controlled_entity_id,
        ) != ov(request_state.pending_controlled_entity_id) || old(debug).last_detached_free_camera
            != view.detached_free_camera),
        changed ==> ov(final(debug).last_controlled_entity_id) == ov(view.controlled_entity_id) && ov(
            final(debug).last_pending_controlled_entity_id,
        ) == ov(request_state.pending_controlled_entity_id) && final(debug).last_detached_free_camera
            == view.detached_free_camera,
        !changed ==> *final(debug) == *old(debug),
        ov(final(debug).handover_audit_entity_id) == ov(old(debug).handover_audit_entity_id),
{
    let changed = !opt_str_eq(&debug.last_controlled_entity_id, &view.controlled_entity_id)
        || !opt_str_eq(&debug.last_pending_controlled_entity_id, &request_state.pending_controlled_entity_id)
        || debug.last_detached_free_camera != view.detached_free_camera;
    if changed {
        debug.last_controlled_entity_id = clone_opt(&view.controlled_entity_id);
        debug.last_pending_controlled_entity_id = clone_opt(&request_state.pending_controlled_entity_id);
        debug.last_detached_free_camera = view.detached_free_camera;
    }
    changed
}

/// Whether the handover audit logs now (at most once a second); stamps the log time if so.
pub fn handover_audit_due(debug: &mut ClientControlDebugState, now_ms: u64) -> (due: bool)
    ensures
        due == (old(debug).handover_audit_entity_id is Some && now_ms as int - old(debug).last_handover_audit_log_at_ms as int >= 1000),
        final(debug).last_handover_audit_log_at_ms == if due { now_ms } else { old(debug).last_handover_audit_log_at_ms },
        final(debug).handover_audit_entity_id == old(debug).handover_audit_entity_id,
        final(debug).handover_audit_started_at_ms == old(debug).handover_audit_started_at_ms,
{
    if debug.handover_audit_entity_id.is_none() {
        return false;
    }
    if now_ms < debug.last_handover_audit_log_at_ms || now_ms - debug.last_handover_audit_log_at_ms < 1000 {
        return false;
    }
    debug.last_handover_audit_log_at_ms = now_ms;
    true
}

/// Ends the handover audit once a predicted copy of the target was seen.
pub fn finish_handover_audit(debug: &mut ClientControlDebugState, saw_predicted: bool)
    ensures
        saw_predicted ==> final(debug).handover_audit_entity_id is None && final(debug).handover_audit_started_at_ms is None,
        !saw_predicted ==> *final(debug) == *old(debug),
        final(debug).last_handover_audit_log_at_ms == old(debug).last_handover_audit_log_at_ms,
{
    if saw_predicted {
        debug.handover_audit_entity_id = None;
        debug.handover_audit_started_at_ms = None;
    }
}

/// The runtime id for a GUID: the GUID itself when the registry knows it, else the local
/// player's id when the GUID is the player's own.
pub open spec fn runtime_id_from_guid_spec(
    registry: Seq<Seq<char>>,
    local_player_entity_id: Seq<char>,
    local_player_guid: Option<u128>,
    guid: Seq<char>,
) -> Option<Seq<char>> {
    if registry.contains(guid) {
        Some(guid)
    } else if local_player_guid matches Some(g) && uuid_display(g) == guid {
        Some(local_player_entity_id)
    } else {
        None
    }
}

/// The runtime id for a GUID (see `runtime_id_from_guid_spec`); `registry` lists the runtime
/// ids known, `local_player_guid` is the GUID found in the local player's id.
pub fn runtime_entity_id_from_guid(
    registry: &Vec<String>,
    local_player_entity_id: &String,
    local_player_guid: Option<u128>,
    guid: &String,
) -> (r: Option<String>)
    ensures
        ov(r) == runtime_id_from_guid_spec(str_views(registry@), local_player_entity_id@, local_player_guid, guid@),
{
    if contains_string(registry, guid) {
        return Some(guid.clone());
    }
    match local_player_guid {
        Some(g) => {
            let text = uuid_to_string(g);
            if text == *guid {
                Some(local_player_entity_id.clone())
            } else {
                None
            }
        },
        None => None,
    }
}

/// The authoritative control target: none without a controlled GUID; the player's own GUID
/// resolves to its runtime id or, failing that, the player's id; any other GUID to its
/// runtime id.
pub fn resolve_authoritative_control_entity_id(
    registry: &Vec<String>,
    local_player_entity_id: &String,
    local_player_guid: Option<u128>,
    controlled_entity_guid: &Option<String>,
) -> (r: Option<String>)
    ensures
        ov(r) == match controlled_entity_guid {
            None => None,
            Some(c) => {
                let found = runtime_id_from_guid_spec(str_views(registry@), local_player_entity_id@, local_player_guid, c@);
                if local_player_guid matches Some(g) && uuid_display(g) == c@ {
                    if found is Some { found } else { Some(local_player_entity_id@) }
                } else {
                    found
                }
            },
        },
{
    let c = match controlled_entity_guid {
        Some(c) => c,
        None => return None,
    };
    let found = runtime_entity_id_from_guid(registry, local_player_entity_id, local_player_guid, c);
    match local_player_guid {
        Some(g) => {
            let text = uuid_to_string(g);
            if text == *c {
                return match found {
                    Some(f) => Some(f),
                    None => Some(local_player_entity_id.clone()),
                };
            }
        },
        None => {},
    }
    found
}

/// Aligns the view with the authoritative control target: it becomes the controlled entity,
/// and also the desired one when no request is pending and nothing was desired or the target
/// changed. Nothing changes without a target.
pub fn sync_local_player_view_state(
    view: &mut LocalPlayerViewState,
    request_state: &ClientControlRequestState,
    authoritative_controlled_id: Option<String>,
)
    ensures
        match authoritative_controlled_id {
            None => *final(view) == *old(view),
            Some(a) => {
                let changed = ov(old(view).controlled_entity_id) != Some(a@);
                &&& ov(final(view).controlled_entity_id) == Some(a@)
                &&& ov(final(view).desired_controlled_entity_id) == if request_state.pending_request_seq is None
                    && (old(view).desired_controlled_entity_id is None || changed) {
                    Some(a@)
                } else {
                    ov(old(view).desired_controlled_entity_id)
                }
                &&& final(view).selected_entity_id == old(view).selected_entity_id
                &&& final(view).detached_free_camera == old(view).detached_free_camera
            },
        },
{
    let a = match authoritative_controlled_id {
        Some(a) => a,
        None => return,
    };
    let changed = match &view.controlled_entity_id {
        Some(c) => *c != a,
        None => true,
    };
    if changed {
        view.controlled_entity_id = Some(a.clone());
    }
    if request_state.pending_request_seq.is_none() && (view.desired_controlled_entity_id.is_none() || changed) {
        view.desired_controlled_entity_id = Some(a);
    }
}

/// Whether world loading is over: the session is ready for the local player and the
/// registry holds the player's entity, under its id or under the text of its GUID.
pub fn world_loading_complete(
    state: Option<ClientAppState>,
    local_player_entity_id: &Option<String>,
    ready_player_entity_id: &Option<String>,
    registry: &Vec<String>,
    local_player_guid: Option<u128>,
) -> (r: bool)
    ensures
        r == (state == Some(ClientAppState::WorldLoading) && local_player_entity_id is Some && ov(*ready_player_entity_id)
            == ov(*local_player_entity_id) && (str_views(registry@).contains(local_player_entity_id.unwrap()@)
            || (local_player_guid matches Some(g) && str_views(registry@).contains(uuid_display(g))))),
{
    match state {
        Some(ClientAppState::WorldLoading) => {},
        _ => return false,
    }
    let local = match local_player_entity_id {
        Some(l) => l,
        None => return false,
    };
    if !opt_str_eq(ready_player_entity_id, local_player_entity_id) {
        return false;
    }
    if contains_string(registry, local) {
        return true;
    }
    match local_player_guid {
        Some(g) => contains_string(registry, &uuid_to_string(g)),
        None => false,
    }
}

/// Whether asset loading is over: the bootstrap request completed without failing.
pub fn asset_loading_complete(state: Option<ClientAppState>, bootstrap_completed: bool, bootstrap_failed: bool) -> (r: bool)
    ensures
        r == (state == Some(ClientAppState::AssetLoading) && bootstrap_completed && !bootstrap_failed),
{
    match state {
        Some(ClientAppState::AssetLoading) => bootstrap_completed && !bootstrap_failed,
        _ => false,
    }
}

/// A local copy of an entity, as the control binding sees it.
#[derive(Debug, Clone, Copy)]
pub struct ControlCandidate {
    pub entity_bits: u64,
    pub guid: u128,
    pub is_player_anchor: bool,
    pub is_predicted: bool,
    pub is_interpolated: bool,
}

/// The lowest entity bits among the candidates of `guid` that pass `lane`.
pub open spec fn best_in_lane(c: Seq<ControlCandidate>, guid: u128, lane: spec_fn(ControlCandidate) -> bool) -> Option<u64>
    decreases c.len(),
{
    if c.len() == 0 {
        None
    } else {
        let rest = best_in_lane(c.drop_last(), guid, lane);
        let x = c.last();
        if x.guid == guid && lane(x) {
            match rest {
                Some(b) => if b <= x.entity_bits { Some(b) } else { Some(x.entity_bits) },
                None => Some(x.entity_bits),
            }
        } else {
            rest
        }
    }
}

pub open spec fn lane_predicted() -> spec_fn(ControlCandidate) -> bool {
    |x: ControlCandidate| x.is_predicted
}

pub open spec fn lane_interpolated() -> spec_fn(ControlCandidate) -> bool {
    |x: ControlCandidate| !x.is_predicted && x.is_interpolated
}

pub open spec fn lane_confirmed() -> spec_fn(ControlCandidate) -> bool {
    |x: ControlCandidate| !x.is_predicted && !x.is_interpolated
}

pub open spec fn lane_anchor() -> spec_fn(ControlCandidate) -> bool {
    |x: ControlCandidate| x.is_player_anchor
}

/// The copy that carries local control: the predicted one (lowest bits); for the player
/// anchor, which may stay confirmed-only, else the anchor, a confirmed or an interpolated copy;
/// for any other target nothing, since control never binds to a non-predicted copy.
pub open spec fn control_target_spec(c: Seq<ControlCandidate>, guid: u128, is_player_anchor_target: bool) -> Option<u64> {
    let p = best_in_lane(c, guid, lane_predicted());
    if p is Some {
        p
    } else if is_player_anchor_target {
        let a = best_in_lane(c, guid, lane_anchor());
        let f = best_in_lane(c, guid, lane_confirmed());
        let i = best_in_lane(c, guid, lane_interpolated());
        if a is Some { a } else if f is Some { f } else { i }
    } else {
        None
    }
}

/// Keeps the lower of a best-so-far and a new candidate.
fn keep_lowest(best: Option<u64>, bits: u64) -> (r: Option<u64>)
    ensures
        r == match best {
            Some(b) => if b <= bits { Some(b) } else { Some(bits) },
            None => Some(bits),
        },
{
    match best {
        Some(b) => if b <= bits { Some(b) } else { Some(bits) },
        None => Some(bits),
    }
}

/// Chooses the local copy of the control target (see `control_target_spec`). Returns it, and
/// whether the target lacks the predicted copy that it needs.
pub fn select_control_target_entity(
    candidates: &Vec<ControlCandidate>,
    guid: u128,
    is_player_anchor_target: bool,
) -> (r: (Option<u64>, bool))
    ensures
        r.0 == control_target_spec(candidates@, guid, is_player_anchor_target),
        r.1 == (best_in_lane(candidates@, guid, lane_predicted()) is None && !is_player_anchor_target),
{
    let ghost c = candidates@;
    let mut best_predicted: Option<u64> = None;
    let mut best_interpolated: Option<u64> = None;
    let mut best_confirmed: Option<u64> = None;
    let mut best_anchor: Option<u64> = None;
    let mut i: usize = 0;
    assert(c.take(0) =~= Seq::<ControlCandidate>::empty());
    while i < candidates.len()
        invariant
            c == candidates@,
            i <= c.len(),
            best_predicted == best_in_lane(c.take(i as int), guid, lane_predicted()),
            best_interpolated == best_in_lane(c.take(i as int), guid, lane_interpolated()),
            best_confirmed == best_in_lane(c.take(i as int), guid, lane_confirmed()),
            best_anchor == best_in_lane(c.take(i as int), guid, lane_anchor()),
        decreases candidates.len() - i,
    {
        let x = candidates[i];
        assert(c.take(i + 1).drop_last() =~= c.take(i as int));
        assert(c.take(i + 1).last() == x);
        if x.guid == guid {
            if x.is_player_anchor {
                best_anchor = keep_lowest(best_anchor, x.entity_bits);
            }
            if x.is_predicted {
                best_predicted = keep_lowest(best_predicted, x.entity_bits);
            } else if x.is_interpolated {
                best_interpolated = keep_lowest(best_interpolated, x.entity_bits);
            } else {
                best_confirmed = keep_lowest(best_confirmed, x.entity_bits);
            }
        }
        i = i + 1;
    }
    assert(c.take(i as int) =~= c);
    if best_predicted.is_some() {
        return (best_predicted, false);
    }
    if is_player_anchor_target {
        let t = if best_anchor.is_some() {
            best_anchor
        } else if best_confirmed.is_some() {
            best_confirmed
        } else {
            best_interpolated
        };
        return (t, false);
    }
    (None, true)
}

/// Control never binds to a copy of a non-anchor target that is not predicted.
pub proof fn lemma_control_binds_only_predicted_copies(c: Seq<ControlCandidate>, guid: u128)
    ensures
        control_target_spec(c, guid, false) == best_in_lane(c, guid, lane_predicted()),
        control_target_spec(c, guid, false) matches Some(b) ==> exists|k: int|
            0 <= k < c.len() && #[trigger] c[k].entity_bits == b && c[k].guid == guid && c[k].is_predicted,
{
    lemma_best_in_lane_member(c, guid, lane_predicted());
}

/// The best of a lane is one of its members, and no member has lower bits.
pub proof fn lemma_best_in_lane_member(c: Seq<ControlCandidate>, guid: u128, lane: spec_fn(ControlCandidate) -> bool)
    ensures
        best_in_lane(c, guid, lane) matches Some(b) ==> exists|k: int|
            0 <= k < c.len() && #[trigger] c[k].entity_bits == b && c[k].guid == guid && lane(c[k]),
        best_in_lane(c, guid, lane) matches Some(b) ==> forall|k: int|
            0 <= k < c.len() && c[k].guid == guid && lane(c[k]) ==> b <= #[trigger] c[k].entity_bits,
        best_in_lane(c, guid, lane) is None ==> forall|k: int| 0 <= k < c.len() && c[k].guid == guid ==> !lane(#[trigger] c[k]),
    decreases c.len(),
{
    if c.len() > 0 {
        let p = c.drop_last();
        lemma_best_in_lane_member(p, guid, lane);
        let x = c.last();
        let n = c.len() - 1;
        assert(c[n] == x);
        if let Some(b) = best_in_lane(p, guid, lane) {
            let k = choose|k: int| 0 <= k < p.len() && #[trigger] p[k].entity_bits == b && p[k].guid == guid && lane(p[k]);
            assert(c[k] == p[k]);
        }
        if let Some(b) = best_in_lane(c, guid, lane) {
            assert forall|k: int| 0 <= k < c.len() && c[k].guid == guid && lane(c[k]) implies b <= #[trigger] c[k].entity_bits by {
                if k < n {
                    assert(c[k] == p[k]);
                    assert(p[k].guid == guid && lane(p[k]));
                    assert(best_in_lane(p, guid, lane) is Some);
                    let bp = best_in_lane(p, guid, lane).unwrap();
                    assert(bp <= p[k].entity_bits);
                }
            }
        }
        if best_in_lane(c, guid, lane) is None {
            assert forall|k: int| 0 <= k < c.len() && c[k].guid == guid implies !lane(#[trigger] c[k]) by {
                if k < n {
                    assert(c[k] == p[k]);
                }
            }
        }
    }
}


/// How the control tags change once the control target is chosen: the controlled marker and
/// the motion writer come off every other entity, and the target gets both.
#[derive(Debug)]
pub struct ControlTagPlan {
    pub remove_controlled: Vec<u64>,
    pub remove_motion_writer: Vec<u64>,
    pub tag_target: Option<u64>,
}

/// The entities of `tagged` other than the target, each once.
fn others_than(tagged: &Vec<u64>, target: Option<u64>) -> (r: Vec<u64>)
    ensures
        forall|e: u64| r@.contains(e) <==> tagged@.contains(e) && target != Some(e),
{
    let mut out: Vec<u64> = Vec::new();
    let mut i: usize = 0;
    while i < tagged.len()
        invariant
            i <= tagged@.len(),
            forall|e: u64| out@.contains(e) <==> (exists|k: int| 0 <= k < i && tagged@[k] == e) && target != Some(e),
        decreases tagged.len() - i,
    {
        let e = tagged[i];
        let ghost before = out@;
        let keep = match target {
            Some(t) => t != e,
            None => true,
        };
        if keep {
            out.push(e);
        }
        assert forall|x: u64| out@.contains(x) <==> (exists|k: int| 0 <= k < i + 1 && tagged@[k] == x) && target != Some(x) by {
            if out@.contains(x) && !before.contains(x) {
                assert(out@.last() == x) by {
                    let q = choose|q: int| 0 <= q < out@.len() && out@[q] == x;
                    if q < before.len() {
                        assert(before[q] == x);
                    }
                }
                assert(tagged@[i as int] == x);
            }
            if before.contains(x) {
                let q = choose|q: int| 0 <= q < before.len() && before[q] == x;
                assert(out@[q] == x);
            }
            if (exists|k: int| 0 <= k < i + 1 && tagged@[k] == x) && target != Some(x) {
                let k = choose|k: int| 0 <= k < i + 1 && tagged@[k] == x;
                if k == i {
                    assert(out@[out@.len() - 1] == x);
                }
            }
        }
        i = i + 1;
    }
    out
}

/// Plans the control tags: the controlled marker and motion writer leave every entity that
/// is not the target (`controlled` and `motion_writers` list the entities that carry them),
/// and the target, when there is one, is tagged with both.
pub fn plan_control_tags(controlled: &Vec<u64>, motion_writers: &Vec<u64>, target: Option<u64>) -> (r: ControlTagPlan)
    ensures
        forall|e: u64| r.remove_controlled@.contains(e) <==> controlled@.contains(e) && target != Some(e),
        forall|e: u64| r.remove_motion_writer@.contains(e) <==> motion_writers@.contains(e) && target != Some(e),
        r.tag_target == target,
{
    ControlTagPlan {
        remove_controlled: others_than(controlled, target),
        remove_motion_writer: others_than(motion_writers, target),
        tag_target: target,
    }
}

/// Whether an entity carries a tag once a plan is carried out: it carried it and kept it, or
/// it is the target.
pub open spec fn tagged_after(had: Seq<u64>, removed: Seq<u64>, target: Option<u64>, e: u64) -> bool {
    (had.contains(e) && !removed.contains(e)) || target == Some(e)
}

/// Once the plan is carried out, the chosen target, and it alone, carries the controlled
/// marker and the motion writer.
pub proof fn lemma_only_target_keeps_control_tags(
    controlled: Seq<u64>,
    motion_writers: Seq<u64>,
    target: Option<u64>,
    remove_controlled: Seq<u64>,
    remove_motion_writer: Seq<u64>,
)
    requires
        forall|e: u64| remove_controlled.contains(e) <==> controlled.contains(e) && target != Some(e),
        forall|e: u64| remove_motion_writer.contains(e) <==> motion_writers.contains(e) && target != Some(e),
    ensures
        forall|e: u64| tagged_after(controlled, remove_controlled, target, e) <==> target == Some(e),
        forall|e: u64| tagged_after(motion_writers, remove_motion_writer, target, e) <==> target == Some(e),
{
}


/// What one control-tag step decides.
#[derive(Debug)]
pub struct ControlTagStep {
    /// The local copy that carries control, when any.
    pub target: Option<u64>,
    /// How the missing-predicted-copy note changes: `None` leaves it, `Some(true)` sets it to
    /// the target id, `Some(false)` clears it.
    pub missing_predicted: Option<bool>,
    pub plan: ControlTagPlan,
}

/// One control-tag step: the target GUID (what the id parser found in the control target's
/// id) picks the local copy that carries control (see `control_target_spec`; the player
/// anchor rules apply when it is the local player's GUID), every other entity loses the
/// controlled marker and the motion writer, and the chosen copy gets both. Without a target
/// GUID nothing is chosen and the note stays.
pub fn sync_controlled_entity_tags(
    candidates: &Vec<ControlCandidate>,
    target_guid: Option<u128>,
    local_player_guid: Option<u128>,
    controlled: &Vec<u64>,
    motion_writers: &Vec<u64>,
) -> (r: ControlTagStep)
    ensures
        ({
            let anchor = target_guid is Some && target_guid == local_player_guid;
            &&& r.target == match target_guid {
                Some(g) => control_target_spec(candidates@, g, anchor),
                None => None,
            }
            &&& r.missing_predicted == match target_guid {
                Some(g) => Some(best_in_lane(candidates@, g, lane_predicted()) is None && !anchor),
                None => None,
            }
        }),
        r.plan.tag_target == r.target,
        forall|e: u64| tagged_after(controlled@, r.plan.remove_controlled@, r.target, e) <==> r.target == Some(e),
        forall|e: u64| tagged_after(motion_writers@, r.plan.remove_motion_writer@, r.target, e) <==> r.target == Some(e),
{
    let (target, missing) = match target_guid {
        Some(g) => {
            let anchor = match local_player_guid {
                Some(p) => p == g,
                None => false,
            };
            let (t, m) = select_control_target_entity(candidates, g, anchor);
            (t, Some(m))
        },
        None => (None, None),
    };
    let plan = plan_control_tags(controlled, motion_writers, target);
    proof {
        lemma_only_target_keeps_control_tags(
            controlled@,
            motion_writers@,
            target,
            plan.remove_controlled@,
            plan.remove_motion_writer@,
        );
    }
    ControlTagStep { target, missing_predicted: missing, plan }
}

} // verus!
