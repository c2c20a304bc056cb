//! Realtime input: where input is routed, when it is sent, and the ticks awaiting acks.
//! Times are in milliseconds.

use vstd::prelude::*;
use crate::assets::{str_views, contains_string};
use crate::control::ov;

verus! {

/// Input is resent at least this often, in milliseconds.
pub const INPUT_HEARTBEAT_INTERVAL_MS: u64 = 100;
/// At most this many sent ticks wait for an ack.
pub const MAX_PENDING_INPUT_TICKS: usize = 512;

/// Whether this frame's input goes out: it changed, its target changed, or the heartbeat is
/// due (always when nothing was sent yet).
pub fn should_send_realtime_input_message(
    now_ms: u64,
    last_sent_at_ms: Option<u64>,
    input_changed: bool,
    target_changed: bool,
) -> (r: bool)
    ensures
        r == (input_changed || target_changed || match last_sent_at_ms {
            None => true,
            Some(t) => now_ms as int - t as int >= INPUT_HEARTBEAT_INTERVAL_MS as int,
        }),
{
    if input_changed || target_changed {
        return true;
    }
    match last_sent_at_ms {
        None => true,
        Some(t) => now_ms >= t && now_ms - t >= INPUT_HEARTBEAT_INTERVAL_MS,
    }
}

/// The entity that receives input: the controlled entity when the registry knows it, else
/// the player's own.
pub open spec fn input_target_spec(controlled: Option<Seq<char>>, registry: Seq<Seq<char>>, player: Seq<char>) -> Seq<char> {
    match controlled {
        Some(c) => if registry.contains(c) { c } else { player },
        None => player,
    }
}

/// The entity that receives input (see `input_target_spec`).
pub fn input_target_entity_id(controlled_entity_id: &Option<String>, registry: &Vec<String>, player_entity_id: &String) -> (r: String)
    ensures
        r@ == input_target_spec(ov(*controlled_entity_id), str_views(registry@), player_entity_id@),
{
    match controlled_entity_id {
        Some(c) => if contains_string(registry, c) { c.clone() } else { player_entity_id.clone() },
        None => player_entity_id.clone(),
    }
}

/// Whether an entity keeps the input marker: it is the input target and controlled by the
/// local player.
pub fn keeps_input_marker(
    entity_bits: u64,
    target_entity_bits: Option<u64>,
    controlled_by_player_entity_id: &Option<String>,
    player_entity_id: &String,
) -> (r: bool)
    ensures
        r == (target_entity_bits == Some(entity_bits) && (controlled_by_player_entity_id matches Some(p) && p@
            == player_entity_id@)),
{
    let is_target = match target_entity_bits {
        Some(t) => t == entity_bits,
        None => false,
    };
    is_target && match controlled_by_player_entity_id {
        Some(p) => *p == *player_entity_id,
        None => false,
    }
}

/// The ticks of sent input awaiting acks: the newest ones, oldest first.
#[derive(Debug)]
pub struct ClientInputAckTracker {
    pub pending_ticks: Vec<u64>,
}

impl ClientInputAckTracker {
    pub fn new() -> (r: Self)
        ensures
            r.pending_ticks@.len() == 0,
    {
        ClientInputAckTracker { pending_ticks: Vec::new() }
    }

    /// At most the cap of ticks.
    pub open spec fn wf(&self) -> bool {
        self.pending_ticks@.len() <= MAX_PENDING_INPUT_TICKS
    }
}

/// The ticks awaiting acks after `t` is sent: `t` appended, the oldest dropped beyond the cap.
pub open spec fn pending_after_send(pending: Seq<u64>, t: u64) -> Seq<u64> {
    let p = pending.push(t);
    if p.len() > MAX_PENDING_INPUT_TICKS { p.subrange(p.len() - MAX_PENDING_INPUT_TICKS, p.len() as int) } else { p }
}

/// The tick after `t`, staying at the largest `u64`.
pub open spec fn next_tick(t: u64) -> u64 {
    if t == u64::MAX { t } else { (t + 1) as u64 }
}

/// Advances the network tick for an input send (saturating) and records it as awaiting an
/// ack, dropping the oldest ticks beyond the cap. Returns the new tick.
pub fn record_input_send(tick: &mut u64, tracker: &mut ClientInputAckTracker) -> (t: u64)
    requires
        old(tracker).wf(),
    ensures
        t == next_tick(*old(tick)),
        *final(tick) == t,
        final(tracker).wf(),
        final(tracker).pending_ticks@ == pending_after_send(old(tracker).pending_ticks@, t),
{
    *tick = tick.saturating_add(1);
    let t = *tick;
    let ghost pushed = tracker.pending_ticks@.push(t);
    tracker.pending_ticks.push(t);
    let ghost mut dropped: int = 0;
    while tracker.pending_ticks.len() > MAX_PENDING_INPUT_TICKS
        invariant
            pushed == old(tracker).pending_ticks@.push(t),
            old(tracker).pending_ticks@.len() <= MAX_PENDING_INPUT_TICKS,
            0 <= dropped <= pushed.len(),
            tracker.pending_ticks@ == pushed.subrange(dropped, pushed.len() as int),
            tracker.pending_ticks@.len() >= 1,
            dropped == 0 || tracker.pending_ticks@.len() == MAX_PENDING_INPUT_TICKS,
        decreases tracker.pending_ticks.len(),
    {
        tracker.pending_ticks.remove(0);
        proof {
            dropped = dropped + 1;
        }
        assert(tracker.pending_ticks@ =~= pushed.subrange(dropped, pushed.len() as int));
    }
    assert(tracker.pending_ticks@ =~= pending_after_send(old(tracker).pending_ticks@, t));
    t
}

/// What the last input message carried, and when it went out.
#[derive(Debug)]
pub struct ClientInputSendState {
    /// When the last input went out; `None` before the first.
    pub last_sent_at_ms: Option<u64>,
    /// Its actions, as the protocol's action codes.
    pub last_sent_actions: Vec<u32>,
    pub last_sent_target_entity_id: Option<String>,
}

impl ClientInputSendState {
    /// Nothing sent yet.
    pub fn new() -> (r: Self)
        ensures
            r.last_sent_at_ms is None,
            r.last_sent_actions@.len() == 0,
            r.last_sent_target_entity_id is None,
    {
        ClientInputSendState { last_sent_at_ms: None, last_sent_actions: Vec::new(), last_sent_target_entity_id: None }
    }
}

/// Whether two action lists are the same.
fn same_actions(a: &Vec<u32>, b: &Vec<u32>) -> (r: bool)
    ensures
        r == (a@ == b@),
{
    if a.len() != b.len() {
        return false;
    }
    let mut i: usize = 0;
    while i < a.len()
        invariant
            a@.len() == b@.len(),
            i <= a@.len(),
            forall|k: int| 0 <= k < i ==> a@[k] == b@[k],
        decreases a.len() - i,
    {
        if a[i] != b[i] {
            return false;
        }
        i = i + 1;
    }
    assert(a@ =~= b@);
    true
}

/// One frame of realtime input for `target_entity_id` with these actions. When it is due (see
/// `should_send_realtime_input_message`: the actions or the target changed, or the heartbeat
/// is due) the network tick advances (saturating), the tick awaits its ack, and the actions, target and
/// time are recorded as the last sent; the tick to send is returned. Otherwise nothing changes.
pub fn send_lightyear_input_messages(
    send_state: &mut ClientInputSendState,
    tick: &mut u64,
    tracker: &mut ClientInputAckTracker,
    actions: Vec<u32>,
    target_entity_id: String,
    now_ms: u64,
) -> (sent: Option<u64>)
    requires
        old(tracker).wf(),
    ensures
        final(tracker).wf(),
        ({
            let input_changed = old(send_state).last_sent_actions@ != actions@;
            let target_changed = ov(old(send_state).last_sent_target_entity_id) != Some(target_entity_id@);
            let due = input_changed || target_changed || match old(send_state).last_sent_at_ms {
                None => true,
                Some(t) => now_ms as int - t as int >= INPUT_HEARTBEAT_INTERVAL_MS as int,
            };
            if due {
                &&& sent == Some(next_tick(*old(tick)))
                &&& *final(tick) == next_tick(*old(tick))
                &&& final(tracker).pending_ticks@ == pending_after_send(old(tracker).pending_ticks@, next_tick(*old(tick)))
                &&& final(send_state).last_sent_at_ms == Some(now_ms)
                &&& final(send_state).last_sent_actions@ == actions@
                &&& ov(final(send_state).last_sent_target_entity_id) == Some(target_entity_id@)
            } else {
                &&& sent is None
                &&& *final(tick) == *old(tick)
                &&& *final(tracker) == *old(tracker)
                &&& *final(send_state) == *old(send_state)
            }
        }),
{
    let input_changed = !same_actions(&send_state.last_sent_actions, &actions);
    let target_changed = match &send_state.last_sent_target_entity_id {
        Some(t) => *t != target_entity_id,
        None => true,
    };
    if !should_send_realtime_input_message(now_ms, send_state.last_sent_at_ms, input_changed, target_changed) {
        return None;
    }
    let t = record_input_send(tick, tracker);
    send_state.last_sent_at_ms = Some(now_ms);
    send_state.last_sent_actions = actions;
    send_state.last_sent_target_entity_id = Some(target_entity_id);
    Some(t)
}


} // verus!
