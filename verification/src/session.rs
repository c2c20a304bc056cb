//! The gateway session: auth and world-entry requests, their results, the replication auth
//! bind and the session-ready handshake. Times are in milliseconds.

use vstd::prelude::*;
use crate::control::{ClientAppState, ov};
use crate::text::{is_blank, is_blank_str, concat_str, str_eq, push_char};

verus! {

/// The action of the auth screen.
#[derive(Debug, Clone, Copy, PartialEq, Eq)]
pub enum AuthAction {
    Login,
    Register,
    ForgotRequest,
    ForgotConfirm,
}

/// The focused field of the auth screen.
#[derive(Debug, Clone, Copy, PartialEq, Eq)]
pub enum FocusField {
    Email,
    Password,
    ResetToken,
    NewPassword,
}

/// The client's session with the gateway.
#[derive(Debug)]
pub struct ClientSession {
    pub gateway_url: String,
    pub selected_action: AuthAction,
    pub focus: FocusField,
    pub email: String,
    pub password: String,
    pub reset_token: String,
    pub new_password: String,
    pub access_token: Option<String>,
    pub refresh_token: Option<String>,
    pub account_id: Option<String>,
    pub player_entity_id: Option<String>,
    pub status: String,
    pub ui_dirty: bool,
}

/// The gateway used when `GATEWAY_URL` is not set.
pub open spec fn default_gateway_url() -> Seq<char> {
    "http://127.0.0.1:8080"@
}

impl ClientSession {
    /// A fresh session on the auth screen; `gateway_url_env` is the value of `GATEWAY_URL`.
    pub fn new(gateway_url_env: Option<String>) -> (r: Self)
        ensures
            r.gateway_url@ == match gateway_url_env {
                Some(g) => g@,
                None => default_gateway_url(),
            },
            r.selected_action == AuthAction::Login,
            r.focus == FocusField::Email,
            r.email@ == "pilot@example.com"@,
            r.password@ == "very-strong-password"@,
            r.reset_token@.len() == 0,
            r.new_password@ == "new-very-strong-password"@,
            r.access_token is None,
            r.refresh_token is None,
            r.account_id is None,
            r.player_entity_id is None,
            r.status@ == "Ready. F1 Login, F2 Register, F3 Forgot Request, F4 Forgot Confirm."@,
            r.ui_dirty,
    {
        ClientSession {
            gateway_url: match gateway_url_env {
                Some(g) => g,
                None => "http://127.0.0.1:8080".to_string(),
            },
            selected_action: AuthAction::Login,
            focus: FocusField::Email,
            email: "pilot@example.com".to_string(),
            password: "very-strong-password".to_string(),
            reset_token: String::new(),
            new_password: "new-very-strong-password".to_string(),
            access_token: None,
            refresh_token: None,
            account_id: None,
            player_entity_id: None,
            status: "Ready. F1 Login, F2 Register, F3 Forgot Request, F4 Forgot Confirm.".to_string(),
            ui_dirty: true,
        }
    }

    /// Sets the status line and marks the UI for redraw.
    pub fn set_status(&mut self, status: String)
        ensures
            final(self).status@ == status@,
            final(self).ui_dirty,
            same_but_status(*final(self), *old(self)),
            final(self).gateway_url == old(self).gateway_url,
            final(self).selected_action == old(self).selected_action,
            final(self).access_token == old(self).access_token,
            final(self).refresh_token == old(self).refresh_token,
            final(self).account_id == old(self).account_id,
            final(self).player_entity_id == old(self).player_entity_id,
            final(self).reset_token == old(self).reset_token,
    {
        self.status = status;
        self.ui_dirty = true;
    }
}

/// Every field but the status line and the redraw mark is the same.
pub open spec fn same_but_status(a: ClientSession, b: ClientSession) -> bool {
    &&& a.gateway_url == b.gateway_url
    &&& a.selected_action == b.selected_action
    &&& a.focus == b.focus
    &&& a.email == b.email
    &&& a.password == b.password
    &&& a.reset_token == b.reset_token
    &&& a.new_password == b.new_password
    &&& a.access_token == b.access_token
    &&& a.refresh_token == b.refresh_token
    &&& a.account_id == b.account_id
    &&& a.player_entity_id == b.player_entity_id
}

/// Whether an auth request may start: not while another gateway request is in progress.
pub fn submit_auth_request(session: &mut ClientSession, request_pending: bool) -> (started: bool)
    ensures
        started == !request_pending,
        final(session).status@ == if request_pending {
            "Another gateway request is already in progress."@
        } else {
            "Submitting request..."@
        },
        final(session).ui_dirty,
        same_but_status(*final(session), *old(session)),
{
    if request_pending {
        session.set_status("Another gateway request is already in progress.".to_string());
        return false;
    }
    session.set_status("Submitting request...".to_string());
    true
}

/// Whether an enter-world request may start: no other request in progress, and logged in.
pub fn submit_enter_world_request(session: &mut ClientSession, request_pending: bool) -> (started: bool)
    ensures
        started == (!request_pending && old(session).access_token is Some),
        final(session).status@ == if request_pending {
            "Another gateway request is already in progress."@
        } else if old(session).access_token is None {
            "No access token; please log in again."@
        } else {
            "Submitting Enter World request..."@
        },
        final(session).ui_dirty,
        same_but_status(*final(session), *old(session)),
{
    if request_pending {
        session.set_status("Another gateway request is already in progress.".to_string());
        return false;
    }
    if session.access_token.is_none() {
        session.set_status("No access token; please log in again.".to_string());
        return false;
    }
    session.set_status("Submitting Enter World request...".to_string());
    true
}

/// Where the asset bootstrap request stands.
#[derive(Debug)]
pub struct AssetBootstrapRequestState {
    pub pending: bool,
    pub submitted: bool,
    pub completed: bool,
    pub failed: bool,
}

/// Whether an asset bootstrap request may start: a pending one is not duplicated (nothing
/// changes), and it needs an access token. On start the request is marked submitted.
pub fn submit_asset_bootstrap_request(session: &mut ClientSession, request_state: &mut AssetBootstrapRequestState) -> (started: bool)
    ensures
        started == (!old(request_state).pending && old(session).access_token is Some),
        old(request_state).pending ==> *final(session) == *old(session) && *final(request_state) == *old(request_state),
        !old(request_state).pending && old(session).access_token is None ==> final(session).status@
            == "Missing access token for asset bootstrap."@ && final(session).ui_dirty && *final(request_state)
            == *old(request_state),
        started ==> final(request_state).submitted && !final(request_state).completed && !final(request_state).failed
            && final(request_state).pending && final(session).status@ == "Fetching asset bootstrap manifest..."@
            && final(session).ui_dirty,
        final(session).access_token == old(session).access_token,
{
    if request_state.pending {
        return false;
    }
    if session.access_token.is_none() {
        session.set_status("Missing access token for asset bootstrap.".to_string());
        return false;
    }
    request_state.submitted = true;
    request_state.completed = false;
    request_state.failed = false;
    request_state.pending = true;
    session.set_status("Fetching asset bootstrap manifest...".to_string());
    true
}

/// The result of an auth request.
#[derive(Debug)]
pub enum AuthRequestResult {
    LoginOrRegister { access_token: String, refresh_token: String, account_id: String, characters: Vec<String> },
    PasswordResetRequested { reset_token: Option<String> },
    PasswordResetConfirmed,
    Error(String),
}

/// The result of an enter-world request.
#[derive(Debug)]
pub enum EnterWorldRequestResult {
    Accepted { player_entity_id: String },
    Rejected { reason: String },
    Error(String),
}

/// The characters to choose from, and the one chosen.
#[derive(Debug)]
pub struct CharacterSelectionState {
    pub characters: Vec<String>,
    pub selected_player_entity_id: Option<String>,
}

/// What a gateway result asks of the rest of the client.
#[derive(Debug)]
pub struct GatewayResultEffects {
    /// The state to move to.
    pub next_state: Option<ClientAppState>,
    /// An error dialog: title and message.
    pub error_dialog: Option<(String, String)>,
    /// World entry was accepted: reset the replication auth bind and session-ready state and
    /// start the asset bootstrap.
    pub world_entry_accepted: bool,
}

/// The outcome of an auth request that yields no tokens: a reset request when that was the
/// action, else a confirmed reset.
pub fn auth_reset_outcome(action: AuthAction, reset_token: Option<String>) -> (r: AuthRequestResult)
    ensures
        action == AuthAction::ForgotRequest ==> (r matches AuthRequestResult::PasswordResetRequested { reset_token: t } && ov(t) == ov(reset_token)),
        action != AuthAction::ForgotRequest ==> r is PasswordResetConfirmed,
{
    match action {
        AuthAction::ForgotRequest => AuthRequestResult::PasswordResetRequested { reset_token },
        _ => AuthRequestResult::PasswordResetConfirmed,
    }
}

/// Applies the result of an auth request to the session and character selection.
pub fn apply_auth_result(
    session: &mut ClientSession,
    selection: &mut CharacterSelectionState,
    ready_player_entity_id: &mut Option<String>,
    result: AuthRequestResult,
) -> (fx: GatewayResultEffects)
    ensures
        final(session).ui_dirty,
        !fx.world_entry_accepted,
        match result {
            AuthRequestResult::LoginOrRegister { access_token, refresh_token, account_id, characters } => {
                &&& ov(final(session).access_token) == Some(access_token@)
                &&& ov(final(session).refresh_token) == Some(refresh_token@)
                &&& ov(final(session).account_id) == Some(account_id@)
                &&& final(selection).characters == characters
                &&& if characters@.len() == 0 {
                    &&& final(session).status@ == "Authenticated but no characters are available."@
                    &&& fx.error_dialog matches Some((t, m)) && t@ == "No Characters"@
                        && m@ == "This account has no characters. Character creation UI is not implemented yet."@
                    &&& fx.next_state is None
                    &&& final(session).player_entity_id == old(session).player_entity_id
                } else {
                    &&& ov(final(selection).selected_player_entity_id) == Some(characters@[0]@)
                    &&& final(session).player_entity_id is None
                    &&& *final(ready_player_entity_id) is None
                    &&& final(session).status@ == "Authenticated. Select a character and press Enter World."@
                    &&& fx.next_state == Some(ClientAppState::CharacterSelect)
                    &&& fx.error_dialog is None
                }
            },
            AuthRequestResult::PasswordResetRequested { reset_token } => {
                &&& final(session).reset_token@ == match reset_token {
                    Some(t) => t@,
                    None => old(session).reset_token@,
                }
                &&& final(session).status@ == "Password reset token requested. Use F4 to confirm reset."@
                &&& fx.next_state is None && fx.error_dialog is None
            },
            AuthRequestResult::PasswordResetConfirmed => {
                &&& final(session).status@ == "Password reset confirmed. Switch to Login (F1)."@
                &&& fx.next_state is None && fx.error_dialog is None
            },
            AuthRequestResult::Error(err) => {
                &&& final(session).status@ == err@
                &&& fx.error_dialog matches Some((t, m)) && t@ == "Gateway Request Failed"@ && m@ == err@
                &&& fx.next_state is None
            },
        },
{
    let mut fx = GatewayResultEffects { next_state: None, error_dialog: None, world_entry_accepted: false };
    match result {
        AuthRequestResult::LoginOrRegister { access_token, refresh_token, account_id, characters } => {
            session.access_token = Some(access_token);
            session.refresh_token = Some(refresh_token);
            session.account_id = Some(account_id);
            let first = if characters.len() > 0 { Some(characters[0].clone()) } else { None };
            selection.characters = characters;
            match first {
                None => {
                    session.status = "Authenticated but no characters are available.".to_string();
                    fx.error_dialog = Some((
                        "No Characters".to_string(),
                        "This account has no characters. Character creation UI is not implemented yet.".to_string(),
                    ));
                },
                Some(f) => {
                    selection.selected_player_entity_id = Some(f);
                    session.player_entity_id = None;
                    *ready_player_entity_id = None;
                    session.status = "Authenticated. Select a character and press Enter World.".to_string();
                    fx.next_state = Some(ClientAppState::CharacterSelect);
                },
            }
        },
        AuthRequestResult::PasswordResetRequested { reset_token } => {
            match reset_token {
                Some(t) => session.reset_token = t,
                None => {},
            }
            session.status = "Password reset token requested. Use F4 to confirm reset.".to_string();
        },
        AuthRequestResult::PasswordResetConfirmed => {
            session.status = "Password reset confirmed. Switch to Login (F1).".to_string();
        },
        AuthRequestResult::Error(err) => {
            session.status = err.clone();
            fx.error_dialog = Some(("Gateway Request Failed".to_string(), err));
        },
    }
    session.ui_dirty = true;
    fx
}

/// The browser client needs the WebTransport address and certificate digest; a native
/// client accepts any transport.
pub fn validate_world_entry_transport(
    browser: bool,
    webtransport_addr: &Option<String>,
    webtransport_certificate_sha256: &Option<String>,
) -> (r: Result<(), String>)
    ensures
        !browser ==> r is Ok,
        browser ==> match r {
            Ok(_) => (webtransport_addr matches Some(a) && !is_blank(a@)) && (webtransport_certificate_sha256 matches Some(c)
                && !is_blank(c@)),
            Err(e) => {
                if !(webtransport_addr matches Some(a) && !is_blank(a@)) {
                    e@ == "Gateway world-entry response did not include a WebTransport address. Configure replication/gateway WebTransport env before using the browser client."@
                } else {
                    e@ == "Gateway world-entry response did not include a WebTransport certificate digest. Configure replication/gateway WebTransport env before using the browser client."@
                }
            },
        },
{
    if !browser {
        return Ok(());
    }
    let addr_ok = match webtransport_addr {
        Some(a) => !is_blank_str(a.as_str()),
        None => false,
    };
    if !addr_ok {
        return Err(
            "Gateway world-entry response did not include a WebTransport address. Configure replication/gateway WebTransport env before using the browser client.".to_string(),
        );
    }
    let cert_ok = match webtransport_certificate_sha256 {
        Some(c) => !is_blank_str(c.as_str()),
        None => false,
    };
    if !cert_ok {
        return Err(
            "Gateway world-entry response did not include a WebTransport certificate digest. Configure replication/gateway WebTransport env before using the browser client.".to_string(),
        );
    }
    Ok(())
}

/// Applies the result of an enter-world request. An accepted entry whose transport failed
/// validation (`transport_check`) only reports the error. An accepted entry sets the player,
/// resets the bootstrap request and moves to world loading. A rejection shows its reason, an
/// error its message and a dialog.
pub fn apply_enter_world_result(
    session: &mut ClientSession,
    bootstrap: &mut AssetBootstrapRequestState,
    result: EnterWorldRequestResult,
    transport_check: Result<(), String>,
) -> (fx: GatewayResultEffects)
    ensures
        final(session).ui_dirty,
        final(session).access_token == old(session).access_token,
        match result {
            EnterWorldRequestResult::Accepted { player_entity_id } => match transport_check {
                Err(e) => {
                    &&& final(session).status@ == e@
                    &&& fx.error_dialog matches Some((t, m)) && t@ == "Browser Transport Unavailable"@ && m@ == e@
                    &&& !fx.world_entry_accepted && fx.next_state is None
                    &&& final(session).player_entity_id == old(session).player_entity_id
                    &&& *final(bootstrap) == *old(bootstrap)
                },
                Ok(_) => {
                    &&& ov(final(session).player_entity_id) == Some(player_entity_id@)
                    &&& final(session).status@ == "World entry accepted. Waiting for replication bind..."@
                    &&& fx.world_entry_accepted
                    &&& fx.next_state == Some(ClientAppState::WorldLoading)
                    &&& fx.error_dialog is None
                    &&& !final(bootstrap).submitted && !final(bootstrap).completed && !final(bootstrap).failed
                    &&& final(bootstrap).pending == old(bootstrap).pending
                },
            },
            EnterWorldRequestResult::Rejected { reason } => {
                &&& final(session).status@ == reason@
                &&& !fx.world_entry_accepted && fx.next_state is None && fx.error_dialog is None
                &&& *final(bootstrap) == *old(bootstrap)
            },
            EnterWorldRequestResult::Error(err) => {
                &&& final(session).status@ == err@
                &&& fx.error_dialog matches Some((t, m)) && t@ == "Gateway Request Failed"@ && m@ == err@
                &&& !fx.world_entry_accepted && fx.next_state is None
                &&& *final(bootstrap) == *old(bootstrap)
            },
        },
{
    let mut fx = GatewayResultEffects { next_state: None, error_dialog: None, world_entry_accepted: false };
    match result {
        EnterWorldRequestResult::Accepted { player_entity_id } => {
            match transport_check {
                Err(e) => {
                    session.status = e.clone();
                    fx.error_dialog = Some(("Browser Transport Unavailable".to_string(), e));
                },
                Ok(_) => {
                    session.player_entity_id = Some(player_entity_id);
                    bootstrap.submitted = false;
                    bootstrap.completed = false;
                    bootstrap.failed = false;
                    session.status = "World entry accepted. Waiting for replication bind...".to_string();
                    fx.world_entry_accepted = true;
                    fx.next_state = Some(ClientAppState::WorldLoading);
                },
            }
        },
        EnterWorldRequestResult::Rejected { reason } => {
            session.status = reason;
        },
        EnterWorldRequestResult::Error(err) => {
            session.status = err.clone();
            fx.error_dialog = Some(("Gateway Request Failed".to_string(), err));
        },
    }
    session.ui_dirty = true;
    fx
}

/// A later switch of the headless client to another account.
#[derive(Debug)]
pub struct HeadlessAccountSwitchPlan {
    pub switch_after_ms: u64,
    pub switched: bool,
    pub next_player_entity_id: String,
    pub next_access_token: String,
}

/// Switches the headless session to the planned account once its time has come; once only.
pub fn apply_headless_account_switch_system(session: &mut ClientSession, plan: &mut HeadlessAccountSwitchPlan, now_ms: u64) -> (switched: bool)
    ensures
        switched == (!old(plan).switched && now_ms >= old(plan).switch_after_ms),
        switched ==> ov(final(session).player_entity_id) == Some(old(plan).next_player_entity_id@) && ov(
            final(session).access_token,
        ) == Some(old(plan).next_access_token@) && final(plan).switched,
        !switched ==> *final(session) == *old(session) && *final(plan) == *old(plan),
{
    if plan.switched || now_ms < plan.switch_after_ms {
        return false;
    }
    session.player_entity_id = Some(plan.next_player_entity_id.clone());
    session.access_token = Some(plan.next_access_token.clone());
    plan.switched = true;
    true
}

/// A connected client transport, as the auth bind sees it.
#[derive(Debug, Clone, Copy)]
pub struct AuthBindClient {
    pub entity_bits: u64,
    pub connected: bool,
    pub has_control_sender: bool,
}

/// Which transports were sent the auth bind, and when.
#[derive(Debug)]
pub struct ClientAuthSyncState {
    pub sent_for_client_entities: Vec<u64>,
    pub last_sent_at_ms_by_client_entity: Vec<(u64, u64)>,
    pub last_player_entity_id: Option<String>,
}

/// The auth bind is resent at most this often while the session is not ready, in milliseconds.
pub const AUTH_BIND_RESEND_INTERVAL_MS: u64 = 500;

/// When the auth bind was last sent to a transport (0 when never).
pub open spec fn last_sent_at(s: Seq<(u64, u64)>, e: u64) -> u64
    decreases s.len(),
{
    if s.len() == 0 {
        0
    } else if s.last().0 == e {
        s.last().1
    } else {
        last_sent_at(s.drop_last(), e)
    }
}

/// Whether the auth bind goes to this transport now: it is connected and has a control
/// sender, and it was never sent one, or the session is not ready and the last one is half a
/// second old.
pub open spec fn auth_bind_due(
    sent: Seq<u64>,
    times: Seq<(u64, u64)>,
    c: AuthBindClient,
    session_ready_for_player: bool,
    now_ms: u64,
) -> bool {
    let sent_before = sent.contains(c.entity_bits);
    let resend = !session_ready_for_player && now_ms as int - last_sent_at(times, c.entity_bits) as int
        >= AUTH_BIND_RESEND_INTERVAL_MS as int;
    c.connected && c.has_control_sender && (!sent_before || resend)
}

/// The transports sent the auth bind, in order, with the sends and times recorded after them.
pub open spec fn auth_bind_plan(
    clients: Seq<AuthBindClient>,
    sent: Seq<u64>,
    times: Seq<(u64, u64)>,
    session_ready_for_player: bool,
    now_ms: u64,
) -> (Seq<u64>, Seq<u64>, Seq<(u64, u64)>)
    decreases clients.len(),
{
    if clients.len() == 0 {
        (Seq::empty(), sent, times)
    } else {
        let (to, s, t) = auth_bind_plan(clients.drop_last(), sent, times, session_ready_for_player, now_ms);
        let c = clients.last();
        if auth_bind_due(s, t, c, session_ready_for_player, now_ms) {
            (to.push(c.entity_bits), s.push(c.entity_bits), t.push((c.entity_bits, now_ms)))
        } else {
            (to, s, t)
        }
    }
}

/// When the auth bind was last sent to a transport.
fn find_last_sent(times: &Vec<(u64, u64)>, e: u64) -> (r: u64)
    ensures
        r == last_sent_at(times@, e),
{
    let ghost s = times@;
    let mut i: usize = times.len();
    assert(s.take(s.len() as int) =~= s);
    while i > 0
        invariant
            s == times@,
            i <= s.len(),
            last_sent_at(s, e) == last_sent_at(s.take(i as int), e),
        decreases i,
    {
        let ghost t = s.take(i as int);
        assert(t.drop_last() =~= s.take(i - 1));
        assert(t.last() == s[i - 1]);
        let (k, at) = times[i - 1];
        if k == e {
            return at;
        }
        i = i - 1;
    }
    0
}

/// Whether `v` holds `x`.
fn contains_u64(v: &Vec<u64>, x: u64) -> (r: bool)
    ensures
        r == v@.contains(x),
{
    let mut i: usize = 0;
    while i < v.len()
        invariant
            i <= v@.len(),
            forall|j: int| 0 <= j < i ==> v@[j] != x,
        decreases v.len() - i,
    {
        if v[i] == x {
            return true;
        }
        i = i + 1;
    }
    false
}

/// Picks the transports that get the auth bind this frame and records the sends (see
/// `auth_bind_plan`). A change of player forgets all earlier sends. Nothing happens outside an
/// active world or without a token and a canonical player id.
pub fn plan_auth_bind_messages(
    state: &mut ClientAuthSyncState,
    active_world_state: bool,
    has_access_token: bool,
    canonical_player_entity_id: &Option<String>,
    session_ready_for_player: bool,
    clients: &Vec<AuthBindClient>,
    now_ms: u64,
) -> (send_to: Vec<u64>)
    ensures
        !active_world_state || !has_access_token || canonical_player_entity_id is None ==> send_to@.len() == 0
            && *final(state) == *old(state),
        active_world_state && has_access_token && canonical_player_entity_id is Some ==> {
            let reset = ov(old(state).last_player_entity_id) != ov(*canonical_player_entity_id);
            let sent0 = if reset { Seq::<u64>::empty() } else { old(state).sent_for_client_entities@ };
            let times0 = if reset { Seq::<(u64, u64)>::empty() } else { old(state).last_sent_at_ms_by_client_entity@ };
            &&& ov(final(state).last_player_entity_id) == ov(*canonical_player_entity_id)
            &&& (send_to@, final(state).sent_for_client_entities@, final(state).last_sent_at_ms_by_client_entity@)
                == auth_bind_plan(clients@, sent0, times0, session_ready_for_player, now_ms)
        },
{
    let mut send_to: Vec<u64> = Vec::new();
    if !active_world_state || !has_access_token {
        return send_to;
    }
    let player = match canonical_player_entity_id {
        Some(p) => p,
        None => return send_to,
    };
    let same = match &state.last_player_entity_id {
        Some(l) => *l == *player,
        None => false,
    };
    if !same {
        state.sent_for_client_entities = Vec::new();
        state.last_sent_at_ms_by_client_entity = Vec::new();
        state.last_player_entity_id = Some(player.clone());
    }
    let ghost sent0 = state.sent_for_client_entities@;
    let ghost times0 = state.last_sent_at_ms_by_client_entity@;
    let ghost cs = clients@;
    let mut i: usize = 0;
    assert(cs.take(0) =~= Seq::<AuthBindClient>::empty());
    while i < clients.len()
        invariant
            cs == clients@,
            i <= cs.len(),
            ov(state.last_player_entity_id) == ov(*canonical_player_entity_id),
            (send_to@, state.sent_for_client_entities@, state.last_sent_at_ms_by_client_entity@) == auth_bind_plan(
                cs.take(i as int),
                sent0,
                times0,
                session_ready_for_player,
                now_ms,
            ),
        decreases clients.len() - i,
    {
        let c = clients[i];
        assert(cs.take(i + 1).drop_last() =~= cs.take(i as int));
        assert(cs.take(i + 1).last() == c);
        let sent_before = contains_u64(&state.sent_for_client_entities, c.entity_bits);
        let last = find_last_sent(&state.last_sent_at_ms_by_client_entity, c.entity_bits);
        let resend = !session_ready_for_player && now_ms >= last && now_ms - last >= AUTH_BIND_RESEND_INTERVAL_MS;
        let due = c.connected && c.has_control_sender && (!sent_before || resend);
        if due {
            send_to.push(c.entity_bits);
            state.sent_for_client_entities.push(c.entity_bits);
            state.last_sent_at_ms_by_client_entity.push((c.entity_bits, now_ms));
        }
        i = i + 1;
    }
    assert(cs.take(i as int) =~= cs);
    send_to
}

/// What a session-ready message for the local player did.
#[derive(Debug, Clone, Copy, PartialEq, Eq)]
pub enum SessionReadyOutcome {
    /// The server runs another protocol: request logout cleanup and report the mismatch.
    ProtocolMismatch,
    /// The session is ready for this player.
    Ready,
}

/// Handles a session-ready message for the local player: another protocol version asks for
/// cleanup; otherwise the player's session is ready.
pub fn apply_session_ready(
    ready_player_entity_id: &mut Option<String>,
    cleanup_requested: &mut bool,
    message_player_entity_id: String,
    protocol_version: u32,
    client_protocol_version: u32,
) -> (r: SessionReadyOutcome)
    ensures
        protocol_version != client_protocol_version ==> r == SessionReadyOutcome::ProtocolMismatch && *final(cleanup_requested)
            && *final(ready_player_entity_id) == *old(ready_player_entity_id),
        protocol_version == client_protocol_version ==> r == SessionReadyOutcome::Ready && ov(*final(ready_player_entity_id))
            == Some(message_player_entity_id@) && *final(cleanup_requested) == *old(cleanup_requested),
{
    if protocol_version != client_protocol_version {
        *cleanup_requested = true;
        return SessionReadyOutcome::ProtocolMismatch;
    }
    *ready_player_entity_id = Some(message_player_entity_id);
    SessionReadyOutcome::Ready
}

/// When the wait for the session-ready message began.
#[derive(Debug)]
pub struct SessionReadyWatchdogState {
    pub started_at_ms: Option<u64>,
}

/// Watches the wait for the session-ready message. Outside an active session (no world, a
/// cleanup or disconnect under way, no token, player or transport) or once ready, the watch
/// is reset. Otherwise it starts now if needed, and after `timeout_ms` it requests cleanup and
/// resets; the result says whether it timed out.
pub fn watch_session_ready_timeout_system(
    watchdog: &mut SessionReadyWatchdogState,
    cleanup_requested: &mut bool,
    session_active: bool,
    session_ready_for_player: bool,
    timeout_ms: u64,
    now_ms: u64,
) -> (timed_out: bool)
    ensures
        !session_active || *old(cleanup_requested) || session_ready_for_player ==> !timed_out
            && final(watchdog).started_at_ms is None && *final(cleanup_requested) == *old(cleanup_requested),
        session_active && !*old(cleanup_requested) && !session_ready_for_player ==> {
            let started = match old(watchdog).started_at_ms { Some(s) => s, None => now_ms };
            &&& timed_out == (now_ms as int - started as int >= timeout_ms as int)
            &&& timed_out ==> *final(cleanup_requested) && final(watchdog).started_at_ms is None
            &&& !timed_out ==> final(watchdog).started_at_ms == Some(started) && !*final(cleanup_requested)
        },
{
    if !session_active || *cleanup_requested || session_ready_for_player {
        watchdog.started_at_ms = None;
        return false;
    }
    let started = match watchdog.started_at_ms {
        Some(s) => s,
        None => now_ms,
    };
    watchdog.started_at_ms = Some(started);
    if now_ms < started || now_ms - started < timeout_ms {
        return false;
    }
    *cleanup_requested = true;
    watchdog.started_at_ms = None;
    true
}

/// The status line after the asset bootstrap request finished.
pub fn asset_bootstrap_failed_status(err: &String) -> (r: String)
    ensures
        r@ == "Asset bootstrap failed: "@ + err@,
{
    concat_str("Asset bootstrap failed: ", err.as_str())
}

/// A session-denied message: the player it names, in canonical form (`None` where the id does
/// not parse), and the server's reason.
#[derive(Debug)]
pub struct SessionDeniedMessage {
    pub player_entity_id: Option<String>,
    pub reason: String,
}

/// The text of the error dialog for a denied session.
pub open spec fn session_denied_text(reason: Seq<char>) -> Seq<char> {
    "The server denied your session.\n\nReason: "@ + reason + "\n\nReturning to character select."@
}

/// Whether a denied message is meant for the local player.
pub open spec fn denied_for_local(local: Option<Seq<char>>, m: SessionDeniedMessage) -> bool {
    local is Some && ov(m.player_entity_id) == local
}

/// The dialog texts for the messages, in order, that deny the local player's session.
pub open spec fn session_denied_dialogs(local: Option<Seq<char>>, msgs: Seq<SessionDeniedMessage>) -> Seq<Seq<char>>
    decreases msgs.len(),
{
    if msgs.len() == 0 {
        Seq::empty()
    } else {
        let rest = session_denied_dialogs(local, msgs.drop_last());
        if denied_for_local(local, msgs.last()) {
            rest.push(session_denied_text(msgs.last().reason@))
        } else {
            rest
        }
    }
}

/// Handles session-denied messages. Those for the local player (`local_player_entity_id`, in
/// canonical form; without one nothing applies) each give an error dialog with the server's
/// reason, and send the client back to character select.
pub fn receive_lightyear_session_denied_messages(
    local_player_entity_id: &Option<String>,
    messages: &Vec<SessionDeniedMessage>,
    next_state: &mut Option<ClientAppState>,
) -> (dialogs: Vec<String>)
    ensures
        dialogs@.map_values(|d: String| d@) == session_denied_dialogs(ov(*local_player_entity_id), messages@),
        *final(next_state) == if dialogs@.len() > 0 {
            Some(ClientAppState::CharacterSelect)
        } else {
            *old(next_state)
        },
{
    let mut dialogs: Vec<String> = Vec::new();
    let ghost local = ov(*local_player_entity_id);
    let ghost ms = messages@;
    if local_player_entity_id.is_none() {
        proof {
            lemma_no_local_no_dialogs(ms);
        }
        assert(dialogs@.map_values(|d: String| d@) =~= session_denied_dialogs(local, ms));
        return dialogs;
    }
    let mut i: usize = 0;
    assert(ms.take(0) =~= Seq::<SessionDeniedMessage>::empty());
    while i < messages.len()
        invariant
            ms == messages@,
            local == ov(*local_player_entity_id),
            local is Some,
            i <= ms.len(),
            dialogs@.map_values(|d: String| d@) == session_denied_dialogs(local, ms.take(i as int)),
        decreases messages.len() - i,
    {
        let m = &messages[i];
        assert(ms.take(i + 1).drop_last() =~= ms.take(i as int));
        assert(ms.take(i + 1).last() == *m);
        let same = match (&m.player_entity_id, local_player_entity_id) {
            (Some(a), Some(b)) => str_eq(a.as_str(), b.as_str()),
            _ => false,
        };
        if same {
            let mut text = concat_str("The server denied your session.\n\nReason: ", m.reason.as_str());
            let tail = concat_str(text.as_str(), "\n\nReturning to character select.");
            text = tail;
            let ghost before = dialogs@.map_values(|d: String| d@);
            dialogs.push(text);
            assert(dialogs@.map_values(|d: String| d@) =~= before.push(session_denied_text(m.reason@)));
        }
        i = i + 1;
    }
    assert(ms.take(i as int) =~= ms);
    if dialogs.len() > 0 {
        *next_state = Some(ClientAppState::CharacterSelect);
    }
    dialogs
}

/// With no local player, no denied message applies.
proof fn lemma_no_local_no_dialogs(msgs: Seq<SessionDeniedMessage>)
    ensures
        session_denied_dialogs(None, msgs).len() == 0,
    decreases msgs.len(),
{
    if msgs.len() > 0 {
        lemma_no_local_no_dialogs(msgs.drop_last());
    }
}

/// A secret as shown on screen: one `*` per character.
pub fn mask(value: &str) -> (r: String)
    ensures
        r@.len() == value@.len(),
        forall|i: int| 0 <= i < r@.len() ==> r@[i] == '*',
{
    let n = value.unicode_len();
    let mut r = String::new();
    let mut i: usize = 0;
    while i < n
        invariant
            n == value@.len(),
            i <= n,
            r@.len() == i,
            forall|k: int| 0 <= k < r@.len() ==> r@[k] == '*',
        decreases n - i,
    {
        push_char(&mut r, '*');
        i = i + 1;
    }
    r
}

/// A character that may be typed into a field: not an ASCII control character and not in a
/// private-use area.
pub open spec fn is_printable_spec(c: char) -> bool {
    let v = c as u32;
    let private_use = (0xe000 <= v <= 0xf8ff) || (0xf0000 <= v <= 0xffffd) || (0x100000 <= v <= 0x10fffd);
    !private_use && !(v <= 0x1f || v == 0x7f)
}

/// Whether a character may be typed into a field (see `is_printable_spec`).
pub fn is_printable_char(chr: char) -> (r: bool)
    ensures
        r == is_printable_spec(chr),
{
    let v = chr as u32;
    let private_use = (0xe000 <= v && v <= 0xf8ff) || (0xf0000 <= v && v <= 0xffffd) || (0x100000 <= v && v <= 0x10fffd);
    !private_use && !(v <= 0x1f || v == 0x7f)
}

/// The text of the focused field of the auth screen.
pub open spec fn focused_field_text(session: ClientSession) -> String {
    match session.focus {
        FocusField::Email => session.email,
        FocusField::Password => session.password,
        FocusField::ResetToken => session.reset_token,
        FocusField::NewPassword => session.new_password,
    }
}

/// The focused field of the auth screen, for editing.
pub fn active_field_mut(session: &mut ClientSession) -> (r: &mut String)
    ensures
        *r == focused_field_text(*old(session)),
        final(session).focus == old(session).focus,
        final(session).email == if old(session).focus == FocusField::Email { *final(r) } else { old(session).email },
        final(session).password == if old(session).focus == FocusField::Password { *final(r) } else { old(session).password },
        final(session).reset_token == if old(session).focus == FocusField::ResetToken {
            *final(r)
        } else {
            old(session).reset_token
        },
        final(session).new_password == if old(session).focus == FocusField::NewPassword {
            *final(r)
        } else {
            old(session).new_password
        },
        final(session).access_token == old(session).access_token,
        final(session).player_entity_id == old(session).player_entity_id,
        final(session).status == old(session).status,
{
    match session.focus {
        FocusField::Email => &mut session.email,
        FocusField::Password => &mut session.password,
        FocusField::ResetToken => &mut session.reset_token,
        FocusField::NewPassword => &mut session.new_password,
    }
}


/// Sets up the headless session from its environment values: the player (already in canonical
/// form) and the access token when given; a later account switch is planned when both the
/// next player and the next token are given, after `switch_after_ms`.
pub fn configure_headless_session_from_env(
    session: &mut ClientSession,
    player_entity_id: Option<String>,
    access_token: Option<String>,
    next_player_entity_id: Option<String>,
    next_access_token: Option<String>,
    switch_after_ms: u64,
) -> (plan: Option<HeadlessAccountSwitchPlan>)
    ensures
        ov(final(session).player_entity_id) == if player_entity_id is Some {
            ov(player_entity_id)
        } else {
            ov(old(session).player_entity_id)
        },
        ov(final(session).access_token) == if access_token is Some { ov(access_token) } else { ov(old(session).access_token) },
        final(session).status == old(session).status,
        final(session).gateway_url == old(session).gateway_url,
        match (next_player_entity_id, next_access_token) {
            (Some(p), Some(t)) => plan matches Some(pl) && pl.next_player_entity_id@ == p@ && pl.next_access_token@ == t@
                && pl.switch_after_ms == switch_after_ms && !pl.switched,
            _ => plan is None,
        },
{
    match player_entity_id {
        Some(p) => session.player_entity_id = Some(p),
        None => {},
    }
    match access_token {
        Some(t) => session.access_token = Some(t),
        None => {},
    }
    match (next_player_entity_id, next_access_token) {
        (Some(p), Some(t)) => Some(
            HeadlessAccountSwitchPlan { switch_after_ms, switched: false, next_player_entity_id: p, next_access_token: t },
        ),
        _ => None,
    }
}


} // verus!
