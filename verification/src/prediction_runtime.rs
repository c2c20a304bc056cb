//! Sampling of the prediction runtime between summaries: rollback entries and active frames,
//! and when the next summary is due. Times are in milliseconds.

use vstd::prelude::*;

verus! {

/// What the rollback sampler has counted.
#[derive(Debug, Clone, Copy)]
pub struct RollbackSampleState {
    pub last_active: bool,
    pub total_entries: u64,
    pub entries_since_log: u64,
    pub active_frames_since_log: u64,
    pub last_confirmed_tick: Option<u16>,
}

impl RollbackSampleState {
    /// Nothing counted yet.
    pub fn new() -> (r: Self)
        ensures
            !r.last_active,
            r.total_entries == 0,
            r.entries_since_log == 0,
            r.active_frames_since_log == 0,
            r.last_confirmed_tick is None,
    {
        RollbackSampleState {
            last_active: false,
            total_entries: 0,
            entries_since_log: 0,
            active_frames_since_log: 0,
            last_confirmed_tick: None,
        }
    }
}

/// `a + 1`, stopping at the largest `u64`.
pub open spec fn sat_inc(a: u64) -> u64 {
    if a == u64::MAX { a } else { (a + 1) as u64 }
}

/// Samples one frame. A rollback counts as entered only on a frame where it is active after a
/// frame where it was not; every active frame counts. A summary is due when `interval_ms` has
/// passed since the last one: then its time is stamped, the counts since the last summary start
/// again from zero and, when one controlled entity exists (`controlled_confirmed_tick` is
/// `Some`), its confirmed tick is remembered. Returns whether the summary is due.
pub fn prediction_runtime_step(
    state: &mut RollbackSampleState,
    last_summary_at_ms: &mut u64,
    rollback_active: bool,
    interval_ms: u64,
    now_ms: u64,
    controlled_confirmed_tick: Option<Option<u16>>,
) -> (summary_due: bool)
    ensures
        summary_due <==> now_ms - *old(last_summary_at_ms) >= interval_ms,
        *final(last_summary_at_ms) == if summary_due { now_ms } else { *old(last_summary_at_ms) },
        final(state).last_active == rollback_active,
        ({
            let entered = rollback_active && !old(state).last_active;
            let entries = if entered { sat_inc(old(state).entries_since_log) } else { old(state).entries_since_log };
            let frames = if rollback_active { sat_inc(old(state).active_frames_since_log) } else { old(state).active_frames_since_log };
            &&& final(state).total_entries == if entered { sat_inc(old(state).total_entries) } else { old(state).total_entries }
            &&& final(state).entries_since_log == if summary_due { 0 } else { entries }
            &&& final(state).active_frames_since_log == if summary_due { 0 } else { frames }
        }),
        final(state).last_confirmed_tick == match controlled_confirmed_tick {
            Some(t) if summary_due => t,
            _ => old(state).last_confirmed_tick,
        },
{
    if rollback_active {
        state.active_frames_since_log = state.active_frames_since_log.saturating_add(1);
        if !state.last_active {
            state.total_entries = state.total_entries.saturating_add(1);
            state.entries_since_log = state.entries_since_log.saturating_add(1);
        }
    }
    state.last_active = rollback_active;
    let due = now_ms >= *last_summary_at_ms && now_ms - *last_summary_at_ms >= interval_ms;
    if !due {
        return false;
    }
    *last_summary_at_ms = now_ms;
    match controlled_confirmed_tick {
        Some(t) => state.last_confirmed_tick = t,
        None => {},
    }
    state.entries_since_log = 0;
    state.active_frames_since_log = 0;
    true
}


/// The anomalies a prediction runtime summary warns about.
#[derive(Debug, Clone, Copy, PartialEq, Eq)]
pub struct PredictionRuntimeWarnings {
    /// The controlled entity is an interpolated copy, not a predicted one.
    pub controlled_interpolated: bool,
    /// No controlled entity, longer than the adoption dialog delay after entering the world.
    pub no_controlled_entity: bool,
    /// Replicated entities exist but none is predicted.
    pub no_predicted_markers: bool,
    /// The control target still waits for its predicted copy.
    pub missing_predicted_clone: bool,
}

/// How long the client has been in the world: zero before it entered or when the clock is
/// behind the entry time.
pub open spec fn in_world_age(entered_at_ms: Option<u64>, now_ms: u64) -> int {
    match entered_at_ms {
        Some(t) => if now_ms >= t { now_ms - t } else { 0 },
        None => 0,
    }
}

/// The warnings of a prediction runtime summary; none unless the summary is due. The
/// controlled entity (`controlled_markers`: its predicted and interpolated markers, when there
/// is exactly one) is reported when interpolated and not predicted. In predicted mode, once
/// replication was seen: no controlled entity after `defer_dialog_after_ms` in the world,
/// replicated entities without any predicted one, and a control target without its
/// predicted copy.
pub fn prediction_runtime_warnings(
    summary_due: bool,
    local_simulation_mode: bool,
    replication_seen: bool,
    in_world_entered_at_ms: Option<u64>,
    now_ms: u64,
    defer_dialog_after_ms: u64,
    controlled_count: usize,
    replicated_count: usize,
    predicted_count: usize,
    controlled_markers: Option<(bool, bool)>,
    missing_predicted_control: bool,
) -> (r: PredictionRuntimeWarnings)
    ensures
        r.controlled_interpolated == (summary_due && (controlled_markers matches Some((p, i)) && !p && i)),
        ({
            let watch = summary_due && !local_simulation_mode && replication_seen;
            &&& r.no_controlled_entity == (watch && in_world_age(in_world_entered_at_ms, now_ms) > defer_dialog_after_ms
                && controlled_count == 0)
            &&& r.no_predicted_markers == (watch && replicated_count > 0 && predicted_count == 0)
            &&& r.missing_predicted_clone == (watch && missing_predicted_control)
        }),
{
    let controlled_interpolated = summary_due && match controlled_markers {
        Some((p, i)) => !p && i,
        None => false,
    };
    let watch = summary_due && !local_simulation_mode && replication_seen;
    let age: u64 = match in_world_entered_at_ms {
        Some(t) => if now_ms >= t { now_ms - t } else { 0 },
        None => 0,
    };
    PredictionRuntimeWarnings {
        controlled_interpolated,
        no_controlled_entity: watch && age > defer_dialog_after_ms && controlled_count == 0,
        no_predicted_markers: watch && replicated_count > 0 && predicted_count == 0,
        missing_predicted_clone: watch && missing_predicted_control,
    }
}

} // verus!
