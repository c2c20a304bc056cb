//! The in-world bootstrap watchdog: which failure dialogs to raise, and when to force the
//! bootstrap to complete in a degraded mode. Times are in milliseconds.

use vstd::prelude::*;
use crate::adoption::DeferredPredictedAdoptionState;
use crate::numparse::{decimal_text, format_decimal};
use crate::session::{ClientSession, same_but_status};
use crate::text::concat_str;

verus! {

/// What the watchdog has seen and shown since the client entered the world.
#[derive(Debug)]
pub struct BootstrapWatchdogState {
    pub in_world_entered_at_ms: Option<u64>,
    pub replication_state_seen: bool,
    pub asset_manifest_seen: bool,
    pub last_bootstrap_ready_bytes: u64,
    pub last_bootstrap_progress_at_ms: u64,
    pub timeout_dialog_shown: bool,
    pub stream_stall_dialog_shown: bool,
    pub no_world_state_dialog_shown: bool,
}

/// Without manifest or replication this long after entering, the bootstrap timed out.
pub const BOOTSTRAP_TIMEOUT_MS: u64 = 3000;
/// With the bootstrap done but no replication this long after entering, no world state came.
pub const NO_WORLD_STATE_MS: u64 = 10000;
/// Without bootstrap progress this long, the asset stream stalled.
pub const STREAM_STALL_MS: u64 = 6000;

impl BootstrapWatchdogState {
    /// Armed on entering the world.
    pub fn armed(now_ms: u64) -> (r: Self)
        ensures
            r.in_world_entered_at_ms == Some(now_ms),
            r.last_bootstrap_progress_at_ms == now_ms,
            !r.replication_state_seen,
            !r.asset_manifest_seen,
            r.last_bootstrap_ready_bytes == 0,
            !r.timeout_dialog_shown,
            !r.stream_stall_dialog_shown,
            !r.no_world_state_dialog_shown,
    {
        BootstrapWatchdogState {
            in_world_entered_at_ms: Some(now_ms),
            replication_state_seen: false,
            asset_manifest_seen: false,
            last_bootstrap_ready_bytes: 0,
            last_bootstrap_progress_at_ms: now_ms,
            timeout_dialog_shown: false,
            stream_stall_dialog_shown: false,
            no_world_state_dialog_shown: false,
        }
    }
}

/// What the bootstrap looks like to the watchdog.
#[derive(Debug, Clone, Copy)]
pub struct BootstrapProgress {
    pub manifest_seen: bool,
    pub phase_complete: bool,
    pub ready_bytes: u64,
    pub pending_assets: usize,
}

/// What the watchdog decided this frame.
#[derive(Debug, Clone, Copy)]
pub struct WatchdogOutcome {
    /// Show the bootstrap timeout dialog.
    pub timeout_dialog: bool,
    /// Show the dialog that no world state arrived.
    pub no_world_state_dialog: bool,
    /// Show the dialog that the controlled entity's adoption is delayed.
    pub adoption_delay_dialog: bool,
    /// Show the asset stream stall dialog.
    pub stream_stall_dialog: bool,
    /// Force the bootstrap phase to complete, in degraded mode.
    pub force_bootstrap_complete: bool,
}

/// `a - b` when it is positive, else 0.
pub open spec fn elapsed(now: u64, since: u64) -> int {
    if now >= since { now - since } else { 0 }
}

/// What one watchdog frame does: the watchdog state before (`w0`) and after (`w1`), the
/// adoption state before (`a0`) and after (`a1`), and the outcome `r`.
pub open spec fn watchdog_step(
    w0: BootstrapWatchdogState,
    w1: BootstrapWatchdogState,
    a0: DeferredPredictedAdoptionState,
    a1: DeferredPredictedAdoptionState,
    progress: BootstrapProgress,
    replication_seen_now: bool,
    adoption_dialog_after_ms: u64,
    now_ms: u64,
    r: WatchdogOutcome,
) -> bool {
    let entered = match w0.in_world_entered_at_ms { Some(t) => t, None => now_ms };
    let progressed = progress.ready_bytes != w0.last_bootstrap_ready_bytes;
    let last_progress = if w0.in_world_entered_at_ms is None || progressed {
        now_ms
    } else {
        w0.last_bootstrap_progress_at_ms
    };
    let seen = w0.replication_state_seen || replication_seen_now;
    let timeout = !w0.timeout_dialog_shown && elapsed(now_ms, entered) > BOOTSTRAP_TIMEOUT_MS
        && !progress.manifest_seen && !seen;
    let complete_after_timeout = progress.phase_complete || (timeout && seen);
    let no_world = !w0.no_world_state_dialog_shown && complete_after_timeout && !seen
        && elapsed(now_ms, entered) > NO_WORLD_STATE_MS;
    let adoption = !a0.dialog_shown && seen && a0.waiting_entity_id is Some
        && (a0.wait_started_at_ms matches Some(s) && elapsed(now_ms, s) > adoption_dialog_after_ms);
    let stall = !complete_after_timeout && !w0.stream_stall_dialog_shown && progress.manifest_seen
        && progress.pending_assets > 0 && elapsed(now_ms, last_progress) > STREAM_STALL_MS;
    &&& w1.in_world_entered_at_ms == Some(entered)
    &&& w1.last_bootstrap_ready_bytes == progress.ready_bytes
    &&& w1.last_bootstrap_progress_at_ms == last_progress
    &&& w1.replication_state_seen == seen
    &&& w1.asset_manifest_seen == w0.asset_manifest_seen
    &&& r.timeout_dialog == timeout
    &&& w1.timeout_dialog_shown == (w0.timeout_dialog_shown || timeout)
    &&& r.no_world_state_dialog == no_world
    &&& w1.no_world_state_dialog_shown == (w0.no_world_state_dialog_shown || no_world)
    &&& r.adoption_delay_dialog == adoption
    &&& a1.dialog_shown == (a0.dialog_shown || adoption)
    &&& a1.waiting_entity_id == a0.waiting_entity_id
    &&& a1.wait_started_at_ms == a0.wait_started_at_ms
    &&& a1.resolved_samples == a0.resolved_samples
    &&& r.stream_stall_dialog == stall
    &&& w1.stream_stall_dialog_shown == (w0.stream_stall_dialog_shown || stall)
    &&& r.force_bootstrap_complete == ((timeout && seen && !progress.phase_complete) || stall)
}

/// What a watchdog frame may raise: once replication was seen (before or in this frame) it
/// raises neither the bootstrap timeout nor the no-world-state dialog; a timeout needs no
/// manifest; a stream stall needs a manifest and pending assets; each dialog is raised only
/// when not shown before, and is then marked shown; replication seen stays seen; the timeout
/// and the no-world-state dialog come only 3 s and 10 s after entering the world; forcing
/// completion needs an incomplete bootstrap; the adoption delay dialog needs replication and a
/// waiting entity.
pub open spec fn watchdog_outcome_laws(
    w0: BootstrapWatchdogState,
    w1: BootstrapWatchdogState,
    a0: DeferredPredictedAdoptionState,
    a1: DeferredPredictedAdoptionState,
    progress: BootstrapProgress,
    now_ms: u64,
    replication_seen_now: bool,
    r: WatchdogOutcome,
) -> bool {
    &&& (w0.replication_state_seen || replication_seen_now) ==> !r.no_world_state_dialog && !r.timeout_dialog
    &&& (w0.replication_state_seen || replication_seen_now) ==> w1.replication_state_seen
    &&& r.timeout_dialog ==> !progress.manifest_seen && !w0.timeout_dialog_shown && w1.timeout_dialog_shown
    &&& r.no_world_state_dialog ==> !w0.no_world_state_dialog_shown && w1.no_world_state_dialog_shown
    &&& r.stream_stall_dialog ==> progress.manifest_seen && progress.pending_assets > 0 && !progress.phase_complete
        && !w0.stream_stall_dialog_shown && w1.stream_stall_dialog_shown
    &&& w0.timeout_dialog_shown ==> w1.timeout_dialog_shown && !r.timeout_dialog
    &&& w0.no_world_state_dialog_shown ==> w1.no_world_state_dialog_shown && !r.no_world_state_dialog
    &&& w0.stream_stall_dialog_shown ==> w1.stream_stall_dialog_shown && !r.stream_stall_dialog
    &&& r.timeout_dialog ==> (w0.in_world_entered_at_ms matches Some(t) && now_ms - t > BOOTSTRAP_TIMEOUT_MS)
    &&& r.no_world_state_dialog ==> (w0.in_world_entered_at_ms matches Some(t) && now_ms - t > NO_WORLD_STATE_MS)
    &&& r.force_bootstrap_complete ==> !progress.phase_complete
    &&& r.adoption_delay_dialog ==> (w0.replication_state_seen || replication_seen_now) && !a0.dialog_shown
        && a0.waiting_entity_id is Some && a1.dialog_shown
    &&& a0.dialog_shown ==> !r.adoption_delay_dialog && a1.dialog_shown
    &&& w1.last_bootstrap_ready_bytes == progress.ready_bytes
}

/// Every watchdog frame keeps the laws of `watchdog_outcome_laws`: in particular, with
/// replication seen the no-world-state dialog is never raised.
pub proof fn lemma_watchdog_outcome_laws(
    w0: BootstrapWatchdogState,
    w1: BootstrapWatchdogState,
    a0: DeferredPredictedAdoptionState,
    a1: DeferredPredictedAdoptionState,
    progress: BootstrapProgress,
    replication_seen_now: bool,
    adoption_dialog_after_ms: u64,
    now_ms: u64,
    r: WatchdogOutcome,
)
    requires
        watchdog_step(w0, w1, a0, a1, progress, replication_seen_now, adoption_dialog_after_ms, now_ms, r),
    ensures
        watchdog_outcome_laws(w0, w1, a0, a1, progress, now_ms, replication_seen_now, r),
{
}

/// Runs the watchdog for one frame. It arms itself if needed and notes bootstrap progress and
/// replication. Each dialog shows at most once: the timeout when neither manifest nor
/// replication arrived 3 s after entering (forcing completion when replication is active);
/// no world state when the bootstrap is done but no replication arrived after 10 s; the
/// adoption delay when a wait for the controlled entity lasts longer than
/// `adoption_dialog_after_ms` once replication is active;
/// and, before the bootstrap completes, the stream stall when a manifest was seen, assets are
/// pending and progress stood still for 6 s (also forcing completion).
pub fn watch_in_world_bootstrap_failures(
    watchdog: &mut BootstrapWatchdogState,
    progress: BootstrapProgress,
    replication_seen_now: bool,
    adoption_state: &mut DeferredPredictedAdoptionState,
    adoption_dialog_after_ms: u64,
    now_ms: u64,
) -> (r: WatchdogOutcome)
    ensures
        watchdog_step(
            *old(watchdog),
            *final(watchdog),
            *old(adoption_state),
            *final(adoption_state),
            progress,
            replication_seen_now,
            adoption_dialog_after_ms,
            now_ms,
            r,
        ),
        watchdog_outcome_laws(
            *old(watchdog),
            *final(watchdog),
            *old(adoption_state),
            *final(adoption_state),
            progress,
            now_ms,
            replication_seen_now,
            r,
        ),
{
    if watchdog.in_world_entered_at_ms.is_none() {
        watchdog.in_world_entered_at_ms = Some(now_ms);
        watchdog.last_bootstrap_progress_at_ms = now_ms;
    }
    if progress.ready_bytes != watchdog.last_bootstrap_ready_bytes {
        watchdog.last_bootstrap_ready_bytes = progress.ready_bytes;
        watchdog.last_bootstrap_progress_at_ms = now_ms;
    }
    let entered = match watchdog.in_world_entered_at_ms {
        Some(t) => t,
        None => now_ms,
    };
    let since_entered: u64 = if now_ms >= entered { now_ms - entered } else { 0 };
    if !watchdog.replication_state_seen && replication_seen_now {
        watchdog.replication_state_seen = true;
    }
    let mut phase_complete = progress.phase_complete;
    let mut force = false;
    let timeout = !watchdog.timeout_dialog_shown && since_entered > BOOTSTRAP_TIMEOUT_MS && !progress.manifest_seen
        && !watchdog.replication_state_seen;
    if timeout {
        watchdog.timeout_dialog_shown = true;
        if watchdog.replication_state_seen && !phase_complete {
            phase_complete = true;
            force = true;
        }
    }
    let no_world = !watchdog.no_world_state_dialog_shown && phase_complete && !watchdog.replication_state_seen
        && since_entered > NO_WORLD_STATE_MS;
    if no_world {
        watchdog.no_world_state_dialog_shown = true;
    }
    let adoption = !adoption_state.dialog_shown && watchdog.replication_state_seen
        && adoption_state.waiting_entity_id.is_some() && match adoption_state.wait_started_at_ms {
        Some(s) => (if now_ms >= s { now_ms - s } else { 0 }) > adoption_dialog_after_ms,
        None => false,
    };
    if adoption {
        adoption_state.dialog_shown = true;
    }
    let mut stall = false;
    if !phase_complete {
        let since_progress: u64 = if now_ms >= watchdog.last_bootstrap_progress_at_ms {
            now_ms - watchdog.last_bootstrap_progress_at_ms
        } else {
            0
        };
        if !watchdog.stream_stall_dialog_shown && progress.manifest_seen && progress.pending_assets > 0
            && since_progress > STREAM_STALL_MS {
            watchdog.stream_stall_dialog_shown = true;
            stall = true;
            force = true;
        }
    }
    WatchdogOutcome {
        timeout_dialog: timeout,
        no_world_state_dialog: no_world,
        adoption_delay_dialog: adoption,
        stream_stall_dialog: stall,
        force_bootstrap_complete: force,
    }
}


/// How a dialog is shown.
#[derive(Debug, Clone, Copy, PartialEq, Eq, Structural)]
pub enum DialogLevel {
    Error,
    Warning,
}

/// A dialog for the player: its level, title and message.
#[derive(Debug)]
pub struct WatchdogDialog {
    pub level: DialogLevel,
    pub title: String,
    pub message: String,
}

/// A dialog as plain values.
pub open spec fn dialog_view(d: WatchdogDialog) -> (DialogLevel, Seq<char>, Seq<char>) {
    (d.level, d.title@, d.message@)
}

/// What the dialogs report besides the outcome. `wait_text` is the adoption wait in seconds,
/// already written with one decimal.
#[derive(Debug)]
pub struct WatchdogDiagnostics {
    pub auth_bind_sent: bool,
    pub replication_seen: bool,
    pub manifest_seen: bool,
    pub waiting_entity_id: Option<String>,
    pub wait_text: String,
    pub missing_components: String,
    pub ready_bytes: u64,
    pub total_bytes: u64,
    pub pending_assets: u64,
}

/// `yes` or `no`.
pub open spec fn yes_no(b: bool) -> Seq<char> {
    if b { "yes"@ } else { "no"@ }
}

fn yes_no_str(b: bool) -> (r: &'static str)
    ensures
        r@ == yes_no(b),
{
    if b { "yes" } else { "no" }
}

/// The message of the bootstrap timeout dialog.
pub open spec fn timeout_message(d: WatchdogDiagnostics) -> Seq<char> {
    "Connected to transport, but world bootstrap did not begin within 3 seconds.\n\nDiagnostics:\n- Auth bind sent: "@
        + yes_no(d.auth_bind_sent) + "\n- Replication state received: "@ + yes_no(d.replication_seen)
        + "\n- Asset manifest received: "@ + yes_no(d.manifest_seen)
        + "\n\nLikely causes:\n- Replication rejected client auth bind (JWT mismatch/missing secret)\n- Replication auth/visibility flow not bound for this player\n\nCheck replication logs for: 'replication client authenticated and bound'."@
}

/// The message of the dialog that no world state arrived.
pub open spec fn no_world_message() -> Seq<char> {
    "Asset bootstrap completed, but no replication world state updates arrived.\n\nMost likely cause: gateway bootstrap dispatch is not notifying live replication simulation.\nEnsure gateway uses UDP bootstrap handoff (`GATEWAY_BOOTSTRAP_MODE=udp`) and restart gateway + replication."@
}

/// The entity named in the adoption delay dialog.
pub open spec fn waiting_entity_text(d: WatchdogDiagnostics) -> Seq<char> {
    match d.waiting_entity_id {
        Some(e) => e@,
        None => "<unknown>"@,
    }
}

/// The message of the adoption delay dialog.
pub open spec fn adoption_message(d: WatchdogDiagnostics) -> Seq<char> {
    "Replication is active, but the controlled predicted entity is still waiting for required replicated Avian components.\n\nEntity: "@
        + waiting_entity_text(d) + "\nWait time: "@ + d.wait_text@ + "s\nMissing: "@ + d.missing_components@
        + "\n\nThis usually means component replication for the controlled entity is arriving out-of-order under load."@
}

/// The message of the asset stream stall dialog.
pub open spec fn stall_message(d: WatchdogDiagnostics) -> Seq<char> {
    "Received asset manifest, but bootstrap download progress has not changed for 6 seconds.\n\nDiagnostics:\n- Bootstrap ready bytes: "@
        + decimal_text(d.ready_bytes as nat) + "\n- Bootstrap total bytes: "@ + decimal_text(d.total_bytes as nat)
        + "\n- Pending assets: "@ + decimal_text(d.pending_assets as nat)
        + "\n\nCheck replication asset stream logs for chunk send/request/ack activity."@
}

/// One dialog when `shown`, else none.
pub open spec fn dialog_if(
    shown: bool,
    level: DialogLevel,
    title: Seq<char>,
    message: Seq<char>,
) -> Seq<(DialogLevel, Seq<char>, Seq<char>)> {
    if shown { seq![(level, title, message)] } else { Seq::empty() }
}

/// The dialogs of an outcome, in the order the watchdog raises them.
pub open spec fn watchdog_dialogs(o: WatchdogOutcome, d: WatchdogDiagnostics) -> Seq<(DialogLevel, Seq<char>, Seq<char>)> {
    dialog_if(o.timeout_dialog, DialogLevel::Error, "World Bootstrap Timeout"@, timeout_message(d))
        + dialog_if(o.no_world_state_dialog, DialogLevel::Error, "No World State Received"@, no_world_message())
        + dialog_if(o.adoption_delay_dialog, DialogLevel::Warning, "Controlled Entity Adoption Delayed"@, adoption_message(d))
        + dialog_if(o.stream_stall_dialog, DialogLevel::Error, "Asset Streaming Stalled"@, stall_message(d))
}

/// The status line an outcome leaves: that of the last step that set one. A forced completion
/// without a stall is the timeout's.
pub open spec fn watchdog_status(o: WatchdogOutcome) -> Option<Seq<char>> {
    if o.stream_stall_dialog {
        Some("Asset bootstrap stalled; continuing in degraded mode while streaming retries."@)
    } else if o.adoption_delay_dialog {
        Some("Controlled entity adoption delayed. Check warning dialog."@)
    } else if o.no_world_state_dialog {
        Some("No world state received. Check error dialog."@)
    } else if o.timeout_dialog && o.force_bootstrap_complete {
        Some("Replication active without manifest; continuing in degraded bootstrap mode."@)
    } else if o.timeout_dialog {
        Some("World bootstrap timed out. Check error dialog."@)
    } else {
        None
    }
}

fn push_dialog(
    dialogs: &mut Vec<WatchdogDialog>,
    level: DialogLevel,
    title: &str,
    message: String,
)
    ensures
        final(dialogs)@.map_values(|x: WatchdogDialog| dialog_view(x))
            == old(dialogs)@.map_values(|x: WatchdogDialog| dialog_view(x)).push((level, title@, message@)),
{
    let ghost before = dialogs@;
    let d = WatchdogDialog { level, title: title.to_string(), message };
    dialogs.push(d);
    assert(dialogs@.map_values(|x: WatchdogDialog| dialog_view(x)) =~= before.map_values(
        |x: WatchdogDialog| dialog_view(x),
    ).push((level, title@, message@)));
}

/// Applies the watchdog's outcome to the session: raises its dialogs in order and sets the
/// status line, marking the UI for redraw when anything was raised. The session is otherwise
/// unchanged.
pub fn apply_watchdog_outcome(
    session: &mut ClientSession,
    outcome: WatchdogOutcome,
    diag: &WatchdogDiagnostics,
) -> (dialogs: Vec<WatchdogDialog>)
    ensures
        dialogs@.map_values(|x: WatchdogDialog| dialog_view(x)) == watchdog_dialogs(outcome, *diag),
        same_but_status(*final(session), *old(session)),
        match watchdog_status(outcome) {
            Some(st) => final(session).status@ == st && final(session).ui_dirty,
            None => final(session).status == old(session).status && final(session).ui_dirty == old(
                session,
            ).ui_dirty,
        },
{
    let mut dialogs: Vec<WatchdogDialog> = Vec::new();
    if outcome.timeout_dialog {
        let m0 = concat_str(
            "Connected to transport, but world bootstrap did not begin within 3 seconds.\n\nDiagnostics:\n- Auth bind sent: ",
            yes_no_str(diag.auth_bind_sent),
        );
        let m1 = concat_str(m0.as_str(), "\n- Replication state received: ");
        let m2 = concat_str(m1.as_str(), yes_no_str(diag.replication_seen));
        let m3 = concat_str(m2.as_str(), "\n- Asset manifest received: ");
        let m4 = concat_str(m3.as_str(), yes_no_str(diag.manifest_seen));
        let m5 = concat_str(
            m4.as_str(),
            "\n\nLikely causes:\n- Replication rejected client auth bind (JWT mismatch/missing secret)\n- Replication auth/visibility flow not bound for this player\n\nCheck replication logs for: 'replication client authenticated and bound'.",
        );
        push_dialog(&mut dialogs, DialogLevel::Error, "World Bootstrap Timeout", m5);
        session.status = "World bootstrap timed out. Check error dialog.".to_string();
        session.ui_dirty = true;
        if outcome.force_bootstrap_complete && !outcome.stream_stall_dialog {
            session.status = "Replication active without manifest; continuing in degraded bootstrap mode.".to_string();
        }
    }
    if outcome.no_world_state_dialog {
        push_dialog(
            &mut dialogs,
            DialogLevel::Error,
            "No World State Received",
            "Asset bootstrap completed, but no replication world state updates arrived.\n\nMost likely cause: gateway bootstrap dispatch is not notifying live replication simulation.\nEnsure gateway uses UDP bootstrap handoff (`GATEWAY_BOOTSTRAP_MODE=udp`) and restart gateway + replication.".to_string(),
        );
        session.status = "No world state received. Check error dialog.".to_string();
        session.ui_dirty = true;
    }
    if outcome.adoption_delay_dialog {
        let entity = match &diag.waiting_entity_id {
            Some(e) => e.as_str(),
            None => "<unknown>",
        };
        let m0 = concat_str(
            "Replication is active, but the controlled predicted entity is still waiting for required replicated Avian components.\n\nEntity: ",
            entity,
        );
        let m1 = concat_str(m0.as_str(), "\nWait time: ");
        let m2 = concat_str(m1.as_str(), diag.wait_text.as_str());
        let m3 = concat_str(m2.as_str(), "s\nMissing: ");
        let m4 = concat_str(m3.as_str(), diag.missing_components.as_str());
        let m5 = concat_str(
            m4.as_str(),
            "\n\nThis usually means component replication for the controlled entity is arriving out-of-order under load.",
        );
        push_dialog(&mut dialogs, DialogLevel::Warning, "Controlled Entity Adoption Delayed", m5);
        session.status = "Controlled entity adoption delayed. Check warning dialog.".to_string();
        session.ui_dirty = true;
    }
    if outcome.stream_stall_dialog {
        let ready = format_decimal(diag.ready_bytes);
        let total = format_decimal(diag.total_bytes);
        let pending = format_decimal(diag.pending_assets);
        let m0 = concat_str(
            "Received asset manifest, but bootstrap download progress has not changed for 6 seconds.\n\nDiagnostics:\n- Bootstrap ready bytes: ",
            ready.as_str(),
        );
        let m1 = concat_str(m0.as_str(), "\n- Bootstrap total bytes: ");
        let m2 = concat_str(m1.as_str(), total.as_str());
        let m3 = concat_str(m2.as_str(), "\n- Pending assets: ");
        let m4 = concat_str(m3.as_str(), pending.as_str());
        let m5 = concat_str(m4.as_str(), "\n\nCheck replication asset stream logs for chunk send/request/ack activity.");
        push_dialog(&mut dialogs, DialogLevel::Error, "Asset Streaming Stalled", m5);
        session.status = "Asset streaming stalled. Check error dialog.".to_string();
        session.status = "Asset bootstrap stalled; continuing in degraded mode while streaming retries.".to_string();
        session.ui_dirty = true;
    }
    assert(dialogs@.map_values(|x: WatchdogDialog| dialog_view(x)) =~= watchdog_dialogs(outcome, *diag));
    dialogs
}


proof fn lemma_timeout_flag_stays(
    ws: Seq<BootstrapWatchdogState>,
    adoptions: Seq<DeferredPredictedAdoptionState>,
    progress: Seq<BootstrapProgress>,
    seen: Seq<bool>,
    adoption_dialog_after_ms: u64,
    nows: Seq<u64>,
    rs: Seq<WatchdogOutcome>,
    i: int,
    j: int,
)
    requires
        ws.len() == rs.len() + 1,
        adoptions.len() == rs.len() + 1,
        progress.len() == rs.len(),
        seen.len() == rs.len(),
        nows.len() == rs.len(),
        forall|k: int| 0 <= k < rs.len() ==> watchdog_step(
            ws[k],
            ws[k + 1],
            adoptions[k],
            adoptions[k + 1],
            progress[k],
            seen[k],
            adoption_dialog_after_ms,
            nows[k],
            #[trigger] rs[k],
        ),
        0 <= i < j <= rs.len(),
        ws[i].timeout_dialog_shown,
    ensures
        ws[j].timeout_dialog_shown,
    decreases j - i,
{
    assert(watchdog_step(ws[i], ws[i + 1], adoptions[i], adoptions[i + 1], progress[i], seen[i], adoption_dialog_after_ms, nows[i], rs[i]));
    if i + 1 < j {
        lemma_timeout_flag_stays(ws, adoptions, progress, seen, adoption_dialog_after_ms, nows, rs, i + 1, j);
    }
}

/// Over any run of watchdog frames, the bootstrap timeout dialog is raised at most once: once
/// raised, its flag stays set and no later frame raises it again.
pub proof fn lemma_timeout_dialog_at_most_once(
    ws: Seq<BootstrapWatchdogState>,
    adoptions: Seq<DeferredPredictedAdoptionState>,
    progress: Seq<BootstrapProgress>,
    seen: Seq<bool>,
    adoption_dialog_after_ms: u64,
    nows: Seq<u64>,
    rs: Seq<WatchdogOutcome>,
)
    requires
        ws.len() == rs.len() + 1,
        adoptions.len() == rs.len() + 1,
        progress.len() == rs.len(),
        seen.len() == rs.len(),
        nows.len() == rs.len(),
        forall|k: int| 0 <= k < rs.len() ==> watchdog_step(
            ws[k],
            ws[k + 1],
            adoptions[k],
            adoptions[k + 1],
            progress[k],
            seen[k],
            adoption_dialog_after_ms,
            nows[k],
            #[trigger] rs[k],
        ),
    ensures
        forall|i: int, j: int| 0 <= i < j < rs.len() && (#[trigger] rs[i]).timeout_dialog ==> !(#[trigger] rs[j]).timeout_dialog,
{
    assert forall|i: int, j: int| 0 <= i < j < rs.len() && (#[trigger] rs[i]).timeout_dialog implies !(#[trigger] rs[j]).timeout_dialog by {
        assert(watchdog_step(ws[i], ws[i + 1], adoptions[i], adoptions[i + 1], progress[i], seen[i], adoption_dialog_after_ms, nows[i], rs[i]));
        if i + 1 < j {
            lemma_timeout_flag_stays(ws, adoptions, progress, seen, adoption_dialog_after_ms, nows, rs, i + 1, j);
        }
        assert(watchdog_step(ws[j], ws[j + 1], adoptions[j], adoptions[j + 1], progress[j], seen[j], adoption_dialog_after_ms, nows[j], rs[j]));
    }
}

} // verus!
