//! Adoption of replicated entities into the client world: what to do with each one, and the
//! bookkeeping of a controlled entity whose predicted motion state is still incomplete.

use vstd::prelude::*;
use crate::guid::{uuid_display, uuid_to_string};
use crate::keyed::{Keyed, keys_unique, keyed_map, find_key, upsert_keyed, remove_keyed};
use crate::control::ov;

verus! {

/// Whether adoption of the locally controlled predicted entity has to wait: it lacks one of
/// position, rotation and linear velocity.
pub fn should_defer_controlled_predicted_adoption(
    is_local_controlled: bool,
    has_position: bool,
    has_rotation: bool,
    has_linear_velocity: bool,
) -> (r: bool)
    ensures
        r == (is_local_controlled && (!has_position || !has_rotation || !has_linear_velocity)),
{
    is_local_controlled && (!has_position || !has_rotation || !has_linear_velocity)
}

/// How well a newly replicated entity represents its runtime id.
pub open spec fn candidate_score_spec(is_root_entity: bool, is_local_controlled_entity: bool, predicted_mode: bool) -> i32 {
    if is_local_controlled_entity {
        if predicted_mode { 500 } else { 400 }
    } else if is_root_entity {
        if predicted_mode { 200 } else { 100 }
    } else {
        50
    }
}

/// How well a newly replicated entity represents its runtime id.
pub fn candidate_runtime_entity_score(is_root_entity: bool, is_local_controlled_entity: bool, predicted_mode: bool) -> (r: i32)
    ensures
        r == candidate_score_spec(is_root_entity, is_local_controlled_entity, predicted_mode),
{
    if is_local_controlled_entity {
        if predicted_mode { 500 } else { 400 }
    } else if is_root_entity {
        if predicted_mode { 200 } else { 100 }
    } else {
        50
    }
}

/// How well an already adopted entity represents its runtime id.
pub open spec fn existing_score_spec(
    is_world_entity: bool,
    is_controlled: bool,
    is_predicted: bool,
    is_interpolated: bool,
    is_remote: bool,
) -> i32 {
    if is_controlled {
        if is_predicted { 500 } else { 400 }
    } else if is_remote {
        if is_predicted {
            200
        } else if is_interpolated {
            100
        } else {
            90
        }
    } else if is_world_entity {
        80
    } else {
        0
    }
}

/// How well an already adopted entity represents its runtime id.
pub fn existing_runtime_entity_score(
    is_world_entity: bool,
    is_controlled: bool,
    is_predicted: bool,
    is_interpolated: bool,
    is_remote: bool,
) -> (r: i32)
    ensures
        r == existing_score_spec(is_world_entity, is_controlled, is_predicted, is_interpolated, is_remote),
{
    if is_controlled {
        if is_predicted { 500 } else { 400 }
    } else if is_remote {
        if is_predicted {
            200
        } else if is_interpolated {
            100
        } else {
            90
        }
    } else if is_world_entity {
        80
    } else {
        0
    }
}

/// A candidate replaces the adopted entity of its runtime id only when it scores higher.
pub fn candidate_replaces_existing(candidate_score: i32, existing_score: i32) -> (r: bool)
    ensures
        r == (candidate_score > existing_score),
{
    candidate_score > existing_score
}

/// The names of the missing motion components, joined with ", ".
pub open spec fn missing_summary_spec(has_position: bool, has_rotation: bool, has_linear_velocity: bool) -> Seq<char> {
    let names = (if has_position { Seq::<Seq<char>>::empty() } else { seq!["Position"@] })
        + (if has_rotation { Seq::<Seq<char>>::empty() } else { seq!["Rotation"@] })
        + (if has_linear_velocity { Seq::<Seq<char>>::empty() } else { seq!["LinearVelocity"@] });
    join_with_comma(names)
}

/// The names joined with ", ".
pub open spec fn join_with_comma(names: Seq<Seq<char>>) -> Seq<char>
    decreases names.len(),
{
    if names.len() == 0 {
        Seq::empty()
    } else if names.len() == 1 {
        names[0]
    } else {
        join_with_comma(names.drop_last()) + ", "@ + names.last()
    }
}

/// The names of the missing motion components, joined with ", ".
pub fn missing_motion_components_summary(has_position: bool, has_rotation: bool, has_linear_velocity: bool) -> (r: String)
    ensures
        r@ == missing_summary_spec(has_position, has_rotation, has_linear_velocity),
{
    let mut out = String::new();
    let mut any = false;
    let ghost mut names: Seq<Seq<char>> = Seq::empty();
    assert(out@ == join_with_comma(names));
    if !has_position {
        out.append("Position");
        any = true;
        proof {
            names = names.push("Position"@);
        }
        assert(out@ =~= join_with_comma(names));
    }
    if !has_rotation {
        let ghost before = names;
        if any {
            out.append(", ");
        }
        out.append("Rotation");
        any = true;
        proof {
            names = names.push("Rotation"@);
            assert(names.drop_last() =~= before);
        }
        assert(out@ =~= join_with_comma(names));
    }
    if !has_linear_velocity {
        let ghost before = names;
        if any {
            out.append(", ");
        }
        out.append("LinearVelocity");
        proof {
            names = names.push("LinearVelocity"@);
            assert(names.drop_last() =~= before);
        }
        assert(out@ =~= join_with_comma(names));
    }
    proof {
        let expect = (if has_position { Seq::<Seq<char>>::empty() } else { seq!["Position"@] })
            + (if has_rotation { Seq::<Seq<char>>::empty() } else { seq!["Rotation"@] })
            + (if has_linear_velocity { Seq::<Seq<char>>::empty() } else { seq!["LinearVelocity"@] });
        assert(names =~= expect);
    }
    out
}

/// Two entity ids name the same entity: they are equal, or both carry the same GUID
/// (`left_guid` and `right_guid` are what the runtime-sync id parser found in each).
pub fn ids_refer_to_same_guid(left: &String, right: &String, left_guid: Option<u128>, right_guid: Option<u128>) -> (r: bool)
    ensures
        r == (left@ == right@ || (left_guid is Some && left_guid == right_guid)),
{
    if *left == *right {
        return true;
    }
    match (left_guid, right_guid) {
        (Some(l), Some(r)) => l == r,
        _ => false,
    }
}

/// What the adoption pass sees of a replicated entity that it has not handled yet.
#[derive(Debug)]
pub struct ReplicatedEntityView {
    /// Bits of the local entity handle.
    pub entity_bits: u64,
    /// The entity's GUID.
    pub guid: u128,
    /// What the runtime-sync id parser finds in the GUID's text.
    pub runtime_id_guid: Option<u128>,
    pub mounted: bool,
    pub has_hardpoint: bool,
    pub has_player_tag: bool,
    pub has_position: bool,
    pub has_rotation: bool,
    pub has_linear_velocity: bool,
    pub has_size: bool,
    pub has_world_position: bool,
    pub has_world_rotation: bool,
    pub visual_asset_id: Option<String>,
    pub sprite_shader_asset_id: Option<String>,
    /// The confirmed copy (not a predicted or interpolated clone).
    pub is_replicated: bool,
    /// The entity registered under the same runtime id, with whether it is still alive.
    pub registered: Option<(u64, bool)>,
}

/// How an adopted entity takes part in the client world.
#[derive(Debug, Clone, Copy, PartialEq, Eq)]
pub enum AdoptionRole {
    /// The entity the local player controls.
    LocalControlled,
    /// A root entity shown as a remote entity.
    RemoteRoot,
    /// The local player's own entity.
    LocalPlayer,
    /// A mounted module, hardpoint or other player: it takes no actions here.
    Passive,
}

/// What to do with a replicated entity.
#[derive(Debug)]
pub enum AdoptionDecision {
    /// A spatial root still lacks its core motion components.
    SkipPartialSpatialRoot,
    /// The controlled entity still lacks its predicted motion state.
    Defer,
    /// Another live entity already stands for this runtime id: hide this one.
    HideDuplicate,
    /// Adopt it.
    Adopt {
        runtime_entity_id: String,
        /// The registry entry points at a dead entity and is dropped first.
        drop_stale_registration: bool,
        /// Register this entity under its runtime id (confirmed copies only).
        register: bool,
        /// Interpolate its transform between frames (it has position and rotation).
        frame_interpolate: bool,
        streamed_visual_asset_id: Option<String>,
        streamed_sprite_shader_asset_id: Option<String>,
        role: AdoptionRole,
    },
}

/// Waiting for the controlled entity's predicted state, with statistics of past waits.
/// Times are in milliseconds since start.
#[derive(Debug)]
pub struct DeferredPredictedAdoptionState {
    pub waiting_entity_id: Option<String>,
    pub wait_started_at_ms: Option<u64>,
    pub last_warn_at_ms: u64,
    pub last_missing_components: String,
    pub dialog_shown: bool,
    pub resolved_samples: u64,
    pub resolved_total_wait_ms: u64,
    pub resolved_max_wait_ms: u64,
    pub last_summary_at_ms: u64,
    pub missing_predicted_control_entity_id: Option<String>,
    pub last_missing_predicted_warn_at_ms: u64,
}

/// When a deferred adoption is worth a warning and a summary, in milliseconds.
#[derive(Debug, Clone, Copy)]
pub struct PredictionBootstrapTuning {
    pub defer_warn_after_ms: u64,
    pub defer_warn_interval_ms: u64,
    pub defer_dialog_after_ms: u64,
    pub defer_summary_interval_ms: u64,
}

impl DeferredPredictedAdoptionState {
    /// Nothing waiting and no statistics.
    pub fn new() -> (r: Self)
        ensures
            r.waiting_entity_id is None,
            r.wait_started_at_ms is None,
            r.last_warn_at_ms == 0,
            r.last_missing_components@.len() == 0,
            !r.dialog_shown,
            r.resolved_samples == 0,
            r.resolved_total_wait_ms == 0,
            r.resolved_max_wait_ms == 0,
            r.last_summary_at_ms == 0,
            r.missing_predicted_control_entity_id is None,
            r.last_missing_predicted_warn_at_ms == 0,
    {
        DeferredPredictedAdoptionState {
            waiting_entity_id: None,
            wait_started_at_ms: None,
            last_warn_at_ms: 0,
            last_missing_components: String::new(),
            dialog_shown: false,
            resolved_samples: 0,
            resolved_total_wait_ms: 0,
            resolved_max_wait_ms: 0,
            last_summary_at_ms: 0,
            missing_predicted_control_entity_id: None,
            last_missing_predicted_warn_at_ms: 0,
        }
    }

    /// Stops waiting.
    pub fn clear_wait(&mut self)
        ensures
            final(self).waiting_entity_id is None,
            final(self).wait_started_at_ms is None,
            final(self).last_warn_at_ms == 0,
            final(self).last_missing_components@.len() == 0,
            !final(self).dialog_shown,
            final(self).resolved_samples == old(self).resolved_samples,
            final(self).resolved_total_wait_ms == old(self).resolved_total_wait_ms,
            final(self).resolved_max_wait_ms == old(self).resolved_max_wait_ms,
            final(self).last_summary_at_ms == old(self).last_summary_at_ms,
            final(self).missing_predicted_control_entity_id == old(self).missing_predicted_control_entity_id,
            final(self).last_missing_predicted_warn_at_ms == old(self).last_missing_predicted_warn_at_ms,
    {
        self.waiting_entity_id = None;
        self.wait_started_at_ms = None;
        self.last_warn_at_ms = 0;
        self.last_missing_components = String::new();
        self.dialog_shown = false;
    }
}

/// The entity is neither mounted, a hardpoint nor a player.
pub open spec fn view_is_root(e: &ReplicatedEntityView) -> bool {
    !e.mounted && !e.has_hardpoint && !e.has_player_tag
}

/// A spatial root without position, rotation or (when not static) velocity.
pub open spec fn partial_spatial_root(e: &ReplicatedEntityView) -> bool {
    let is_static_world_spatial = (e.has_world_position || e.has_world_rotation) && !e.has_linear_velocity;
    view_is_root(e) && e.has_size && ((!e.has_position && !e.has_world_position) || (!e.has_rotation
        && !e.has_world_rotation) || (!is_static_world_spatial && !e.has_linear_velocity))
}

/// Whether the runtime id names the local player's entity.
pub open spec fn view_is_local_player(
    e: &ReplicatedEntityView,
    local_player_entity_id: Seq<char>,
    local_player_guid: Option<u128>,
) -> bool {
    uuid_display(e.guid) == local_player_entity_id || (e.runtime_id_guid is Some && e.runtime_id_guid
        == local_player_guid)
}

/// Whether the entity is the one the local player controls.
pub open spec fn view_is_local_controlled(
    e: &ReplicatedEntityView,
    local_player_entity_id: Seq<char>,
    local_player_guid: Option<u128>,
    controlled_entity_id: Option<Seq<char>>,
) -> bool {
    (view_is_root(e) || view_is_local_player(e, local_player_entity_id, local_player_guid))
        && controlled_entity_id == Some(uuid_display(e.guid))
}

/// The deferral bookkeeping: a new waiting entity restarts the wait; the missing components
/// are recorded; a warning is due once the wait is long enough and the last one old enough.
pub open spec fn defer_step(
    st: &DeferredPredictedAdoptionState,
    runtime_entity_id: Seq<char>,
    now_ms: u64,
) -> (Option<u64>, u64, bool) {
    let restart = !(st.waiting_entity_id matches Some(w) && w@ == runtime_entity_id);
    let started = if restart { Some(now_ms) } else { st.wait_started_at_ms };
    let last_warn = if restart { 0u64 } else { st.last_warn_at_ms };
    (started, last_warn, restart)
}

/// What one adoption step does: the decision `d` for entity `e`, whether a deferral warning
/// is due, and the adoption state before (`a0`) and after (`a1`) it.
#[verifier::opaque]
pub open spec fn adoption_step(
    a0: DeferredPredictedAdoptionState,
    a1: DeferredPredictedAdoptionState,
    tuning: PredictionBootstrapTuning,
    local_simulation_mode: bool,
    local_player_entity_id: Seq<char>,
    local_player_guid: Option<u128>,
    ctrl: Option<Seq<char>>,
    e: ReplicatedEntityView,
    now_ms: u64,
    d: AdoptionDecision,
    warn: bool,
) -> bool {
    {
        let rid = uuid_display(e.guid);
        let local_controlled = view_is_local_controlled(&e, local_player_entity_id, local_player_guid, ctrl);
        let local_player = view_is_local_player(&e, local_player_entity_id, local_player_guid);
        let defer = !local_simulation_mode && local_controlled && (!e.has_position || !e.has_rotation
            || !e.has_linear_velocity);
        let duplicate = e.is_replicated && (e.registered matches Some((bits, alive)) && bits != e.entity_bits && alive);
        if partial_spatial_root(&e) {
            &&& d is SkipPartialSpatialRoot
            &&& !warn
            &&& a1 == a0
        } else if defer {
            let (started, last_warn, restart) = defer_step(&a0, rid, now_ms);
            &&& d is Defer
            &&& a1.waiting_entity_id matches Some(w) && w@ == rid
            &&& a1.wait_started_at_ms == started
            &&& a1.dialog_shown == (!restart && a0.dialog_shown)
            &&& a1.last_missing_components@ == missing_summary_spec(
                e.has_position,
                e.has_rotation,
                e.has_linear_velocity,
            )
            &&& warn == (started matches Some(s) && (if now_ms >= s { now_ms - s } else { 0 }) >= tuning.defer_warn_after_ms
                && now_ms as int - last_warn as int >= tuning.defer_warn_interval_ms as int)
            &&& a1.last_warn_at_ms == if warn { now_ms } else { last_warn }
            &&& a1.resolved_samples == a0.resolved_samples
            &&& a1.resolved_total_wait_ms == a0.resolved_total_wait_ms
            &&& a1.resolved_max_wait_ms == a0.resolved_max_wait_ms
            &&& a1.last_summary_at_ms == a0.last_summary_at_ms
            &&& a1.missing_predicted_control_entity_id == a0.missing_predicted_control_entity_id
            &&& a1.last_missing_predicted_warn_at_ms == a0.last_missing_predicted_warn_at_ms
        } else if duplicate {
            &&& d is HideDuplicate
            &&& !warn
            &&& a1 == a0
        } else {
            &&& !warn
            &&& d matches AdoptionDecision::Adopt {
                runtime_entity_id,
                drop_stale_registration,
                register,
                frame_interpolate,
                streamed_visual_asset_id,
                streamed_sprite_shader_asset_id,
                role,
            }
            &&& runtime_entity_id@ == rid
            &&& drop_stale_registration == (e.is_replicated && (e.registered matches Some((bits, alive))
                && bits != e.entity_bits && !alive))
            &&& register == e.is_replicated
            &&& frame_interpolate == (e.has_position && e.has_rotation)
            &&& streamed_visual_asset_id == if e.has_player_tag { None } else { e.visual_asset_id }
            &&& streamed_sprite_shader_asset_id == if e.has_player_tag { None } else { e.sprite_shader_asset_id }
            &&& role == if local_controlled {
                AdoptionRole::LocalControlled
            } else if view_is_root(&e) {
                AdoptionRole::RemoteRoot
            } else if !local_player {
                AdoptionRole::Passive
            } else {
                AdoptionRole::LocalPlayer
            }
            &&& if a0.waiting_entity_id matches Some(w) && w@ == rid {
                &&& a1.waiting_entity_id is None
                &&& a1.wait_started_at_ms is None
                &&& !a1.dialog_shown
                &&& a1.last_missing_components@.len() == 0
                &&& match a0.wait_started_at_ms {
                    Some(s) => {
                        let w = if now_ms >= s { (now_ms - s) as u64 } else { 0u64 };
                        &&& a1.resolved_samples == a0.resolved_samples.saturating_add(1)
                        &&& a1.resolved_total_wait_ms == a0.resolved_total_wait_ms.saturating_add(w)
                        &&& a1.resolved_max_wait_ms == if w > a0.resolved_max_wait_ms {
                            w
                        } else {
                            a0.resolved_max_wait_ms
                        }
                    },
                    None => a1.resolved_samples == a0.resolved_samples,
                }
            } else {
                a1 == a0
            }
        }
        }
}

/// What an adopted entity streams: a non-player entity streams its own visual asset and its
/// own sprite shader asset; a player entity streams neither. The adopted entity is registered
/// exactly when it is a confirmed copy, under the text of its GUID, and its transform is
/// interpolated exactly when it has both position and rotation.
pub open spec fn adopted_streams_own_assets(e: ReplicatedEntityView, d: AdoptionDecision) -> bool {
    d matches AdoptionDecision::Adopt {
        runtime_entity_id,
        register,
        frame_interpolate,
        streamed_visual_asset_id,
        streamed_sprite_shader_asset_id,
        ..
    } ==> {
        &&& !e.has_player_tag ==> streamed_sprite_shader_asset_id == e.sprite_shader_asset_id
        &&& !e.has_player_tag ==> streamed_visual_asset_id == e.visual_asset_id
        &&& e.has_player_tag ==> streamed_sprite_shader_asset_id is None && streamed_visual_asset_id is None
        &&& register == e.is_replicated
        &&& frame_interpolate == (e.has_position && e.has_rotation)
        &&& runtime_entity_id@ == uuid_display(e.guid)
    }
}

/// What an adoption decision must respect: a warning comes only with a deferral; only the
/// controlled entity (its GUID's text is the controlled id) missing motion state in predicted
/// mode is deferred; a spatial root without position is skipped; a controlled role goes only
/// to the controlled entity and a remote root role only to an unmounted, untagged entity; and
/// a skipped or hidden entity leaves the adoption state as it was.
pub open spec fn adoption_decision_laws(
    a0: DeferredPredictedAdoptionState,
    a1: DeferredPredictedAdoptionState,
    local_simulation_mode: bool,
    ctrl: Option<Seq<char>>,
    e: ReplicatedEntityView,
    d: AdoptionDecision,
    warn: bool,
) -> bool {
    &&& warn ==> d is Defer
    &&& d is Defer ==> !local_simulation_mode && ctrl == Some(uuid_display(e.guid)) && (!e.has_position
        || !e.has_rotation || !e.has_linear_velocity)
    &&& (!e.mounted && !e.has_hardpoint && !e.has_player_tag && e.has_size && !e.has_position && !e.has_world_position)
        ==> d is SkipPartialSpatialRoot
    &&& (d matches AdoptionDecision::Adopt { role, .. } && role == AdoptionRole::LocalControlled) ==> ctrl == Some(
        uuid_display(e.guid),
    )
    &&& (d matches AdoptionDecision::Adopt { role, .. } && role == AdoptionRole::RemoteRoot) ==> !e.mounted
        && !e.has_hardpoint && !e.has_player_tag && ctrl != Some(uuid_display(e.guid))
    &&& (d is SkipPartialSpatialRoot || d is HideDuplicate) ==> a1 == a0
    &&& d is Defer ==> (a1.waiting_entity_id matches Some(w) && w@ == uuid_display(e.guid))
    &&& a1.resolved_samples >= a0.resolved_samples
}

/// Every adoption step, whatever the adoption state and settings, adopts an entity with its
/// own streamed assets (see `adopted_streams_own_assets`); and an entity that some live
/// entity other than itself already stands for (a confirmed copy) is never adopted.
pub proof fn lemma_adoption_streams_own_assets(
    a0: DeferredPredictedAdoptionState,
    a1: DeferredPredictedAdoptionState,
    tuning: PredictionBootstrapTuning,
    local_simulation_mode: bool,
    local_player_entity_id: Seq<char>,
    local_player_guid: Option<u128>,
    ctrl: Option<Seq<char>>,
    e: ReplicatedEntityView,
    now_ms: u64,
    d: AdoptionDecision,
    warn: bool,
)
    requires
        adoption_step(a0, a1, tuning, local_simulation_mode, local_player_entity_id, local_player_guid, ctrl, e, now_ms, d, warn),
    ensures
        adopted_streams_own_assets(e, d),
        (e.is_replicated && (e.registered matches Some((bits, alive)) && bits != e.entity_bits && alive)) ==> !(d is Adopt),
        adoption_decision_laws(a0, a1, local_simulation_mode, ctrl, e, d, warn),
{
    reveal(adoption_step);
}

/// Decides what to do with one replicated entity and updates the wait for the controlled
/// entity's predicted state. Returns the decision and whether a deferral warning is due.
pub fn adopt_replicated_entity(
    adoption_state: &mut DeferredPredictedAdoptionState,
    tuning: &PredictionBootstrapTuning,
    local_simulation_mode: bool,
    local_player_entity_id: &String,
    local_player_guid: Option<u128>,
    controlled_entity_id: &Option<String>,
    e: &ReplicatedEntityView,
    now_ms: u64,
) -> (r: (AdoptionDecision, bool))
    ensures
        adoption_step(
            *old(adoption_state),
            *final(adoption_state),
            *tuning,
            local_simulation_mode,
            local_player_entity_id@,
            local_player_guid,
            ov(*controlled_entity_id),
            *e,
            now_ms,
            r.0,
            r.1,
        ),
        adopted_streams_own_assets(*e, r.0),
        adoption_decision_laws(*old(adoption_state), *final(adoption_state), local_simulation_mode, ov(
            *controlled_entity_id,
        ), *e, r.0, r.1),
{
    reveal(adoption_step);
    let runtime_entity_id = uuid_to_string(e.guid);
    let is_root = !e.mounted && !e.has_hardpoint && !e.has_player_tag;
    let is_local_player = ids_refer_to_same_guid(&runtime_entity_id, local_player_entity_id, e.runtime_id_guid, local_player_guid);
    let controlled_matches = match controlled_entity_id {
        Some(c) => *c == runtime_entity_id,
        None => false,
    };
    let is_local_controlled = (is_root || is_local_player) && controlled_matches;
    let predicted_mode = !local_simulation_mode;
    let is_spatial_root = is_root && e.has_size;
    let is_static_world_spatial = (e.has_world_position || e.has_world_rotation) && !e.has_linear_velocity;
    if is_spatial_root && ((!e.has_position && !e.has_world_position) || (!e.has_rotation && !e.has_world_rotation)
        || (!is_static_world_spatial && !e.has_linear_velocity)) {
        return (AdoptionDecision::SkipPartialSpatialRoot, false);
    }
    if predicted_mode && should_defer_controlled_predicted_adoption(
        is_local_controlled,
        e.has_position,
        e.has_rotation,
        e.has_linear_velocity,
    ) {
        let missing = missing_motion_components_summary(e.has_position, e.has_rotation, e.has_linear_velocity);
        let same = match &adoption_state.waiting_entity_id {
            Some(w) => *w == runtime_entity_id,
            None => false,
        };
        if !same {
            adoption_state.waiting_entity_id = Some(runtime_entity_id.clone());
            adoption_state.wait_started_at_ms = Some(now_ms);
            adoption_state.last_warn_at_ms = 0;
            adoption_state.dialog_shown = false;
        } else {
            adoption_state.waiting_entity_id = Some(runtime_entity_id.clone());
        }
        adoption_state.last_missing_components = missing;
        let mut warn = false;
        match adoption_state.wait_started_at_ms {
            Some(started) => {
                let wait = if now_ms >= started { now_ms - started } else { 0 };
                if wait >= tuning.defer_warn_after_ms && now_ms >= adoption_state.last_warn_at_ms
                    && now_ms - adoption_state.last_warn_at_ms >= tuning.defer_warn_interval_ms {
                    adoption_state.last_warn_at_ms = now_ms;
                    warn = true;
                }
            },
            None => {},
        }
        return (AdoptionDecision::Defer, warn);
    }
    let mut drop_stale_registration = false;
    if e.is_replicated {
        match e.registered {
            Some((bits, alive)) => {
                if bits != e.entity_bits {
                    if alive {
                        return (AdoptionDecision::HideDuplicate, false);
                    }
                    drop_stale_registration = true;
                }
            },
            None => {},
        }
    }
    let waiting_here = match &adoption_state.waiting_entity_id {
        Some(w) => *w == runtime_entity_id,
        None => false,
    };
    if waiting_here {
        match adoption_state.wait_started_at_ms {
            Some(started) => {
                let wait = if now_ms >= started { now_ms - started } else { 0 };
                adoption_state.resolved_samples = adoption_state.resolved_samples.saturating_add(1);
                adoption_state.resolved_total_wait_ms = adoption_state.resolved_total_wait_ms.saturating_add(wait);
                if wait > adoption_state.resolved_max_wait_ms {
                    adoption_state.resolved_max_wait_ms = wait;
                }
            },
            None => {},
        }
        adoption_state.clear_wait();
    }
    let streamed_visual_asset_id = if e.has_player_tag {
        None
    } else {
        match &e.visual_asset_id {
            Some(v) => Some(v.clone()),
            None => None,
        }
    };
    let streamed_sprite_shader_asset_id = if e.has_player_tag {
        None
    } else {
        match &e.sprite_shader_asset_id {
            Some(v) => Some(v.clone()),
            None => None,
        }
    };
    let role = if is_local_controlled {
        AdoptionRole::LocalControlled
    } else if is_root {
        AdoptionRole::RemoteRoot
    } else if !is_local_player {
        AdoptionRole::Passive
    } else {
        AdoptionRole::LocalPlayer
    };
    (
        AdoptionDecision::Adopt {
            runtime_entity_id,
            drop_stale_registration,
            register: e.is_replicated,
            frame_interpolate: e.has_position && e.has_rotation,
            streamed_visual_asset_id,
            streamed_sprite_shader_asset_id,
            role,
        },
        false,
    )
}

/// Ends an adoption pass: a summary of resolved waits is due when there are any and the last
/// summary is old enough (it is then stamped now); a controlled entity ends any wait.
pub fn finish_adoption_pass(
    adoption_state: &mut DeferredPredictedAdoptionState,
    tuning: &PredictionBootstrapTuning,
    controlled_count: usize,
    now_ms: u64,
) -> (summary_due: bool)
    ensures
        summary_due == (old(adoption_state).resolved_samples > 0 && now_ms as int - old(adoption_state).last_summary_at_ms as int
            >= tuning.defer_summary_interval_ms as int),
        final(adoption_state).last_summary_at_ms == if summary_due { now_ms } else { old(adoption_state).last_summary_at_ms },
        final(adoption_state).resolved_samples == old(adoption_state).resolved_samples,
        controlled_count > 0 ==> final(adoption_state).waiting_entity_id is None && final(adoption_state).wait_started_at_ms is None
            && !final(adoption_state).dialog_shown,
        controlled_count == 0 ==> final(adoption_state).waiting_entity_id == old(adoption_state).waiting_entity_id
            && final(adoption_state).wait_started_at_ms == old(adoption_state).wait_started_at_ms
            && final(adoption_state).dialog_shown == old(adoption_state).dialog_shown,
{
    let summary_due = adoption_state.resolved_samples > 0 && now_ms >= adoption_state.last_summary_at_ms
        && now_ms - adoption_state.last_summary_at_ms >= tuning.defer_summary_interval_ms;
    if summary_due {
        adoption_state.last_summary_at_ms = now_ms;
    }
    if controlled_count > 0 {
        adoption_state.clear_wait();
    }
    summary_due
}


/// The entity that stands for a runtime id in a registry.
#[derive(Debug)]
pub struct RuntimeEntityEntry {
    pub entity_id: String,
    pub entity_bits: u64,
}

impl Keyed for RuntimeEntityEntry {
    open spec fn key_view(&self) -> Seq<char> {
        self.entity_id@
    }

    fn key(&self) -> (r: &String) {
        &self.entity_id
    }
}

/// A registry as a map from runtime id to entity bits.
pub open spec fn registry_bits(v: Seq<RuntimeEntityEntry>) -> Map<Seq<char>, u64> {
    keyed_map(v).map_values(|x: RuntimeEntityEntry| x.entity_bits)
}

/// What the registry holds for a runtime id: the entity, and whether it is still alive.
pub open spec fn registration_in(reg: Map<Seq<char>, u64>, id: Seq<char>, live: Seq<u64>) -> Option<(u64, bool)> {
    if reg.contains_key(id) {
        Some((reg[id], live.contains(reg[id])))
    } else {
        None
    }
}

/// The entity as the adoption step sees it, with what the registry holds for it.
pub open spec fn with_registration(e: ReplicatedEntityView, r: Option<(u64, bool)>) -> ReplicatedEntityView {
    ReplicatedEntityView { registered: r, ..e }
}

/// The registry after a decision for the entity with these bits: a stale entry is dropped,
/// and an adopted confirmed copy is registered under its runtime id.
pub open spec fn registry_after(reg: Map<Seq<char>, u64>, d: AdoptionDecision, bits: u64) -> Map<Seq<char>, u64> {
    match d {
        AdoptionDecision::Adopt { runtime_entity_id, drop_stale_registration, register, .. } => {
            let m = if drop_stale_registration { reg.remove(runtime_entity_id@) } else { reg };
            if register { m.insert(runtime_entity_id@, bits) } else { m }
        },
        _ => reg,
    }
}

/// The remote registry after a decision: an adopted remote root is registered.
pub open spec fn remote_registry_after(reg: Map<Seq<char>, u64>, d: AdoptionDecision, bits: u64) -> Map<Seq<char>, u64> {
    match d {
        AdoptionDecision::Adopt { runtime_entity_id, role, .. } => if role == AdoptionRole::RemoteRoot {
            reg.insert(runtime_entity_id@, bits)
        } else {
            reg
        },
        _ => reg,
    }
}

/// The pass's steps: entity `i` is decided on with the adoption state `states[i]` and what
/// the registry `regs[i]` holds for it, leading to the next states and registries.
pub open spec fn adoption_pass_steps(
    states: Seq<DeferredPredictedAdoptionState>,
    regs: Seq<Map<Seq<char>, u64>>,
    remotes: Seq<Map<Seq<char>, u64>>,
    tuning: PredictionBootstrapTuning,
    local_simulation_mode: bool,
    local_player_entity_id: Seq<char>,
    local_player_guid: Option<u128>,
    ctrl: Option<Seq<char>>,
    entities: Seq<ReplicatedEntityView>,
    live: Seq<u64>,
    now_ms: u64,
    decisions: Seq<(AdoptionDecision, bool)>,
    n: int,
) -> bool {
    forall|i: int| #![trigger decisions[i]] 0 <= i < n ==> {
        let e = with_registration(entities[i], registration_in(regs[i], uuid_display(entities[i].guid), live));
        &&& adoption_step(
            states[i],
            states[i + 1],
            tuning,
            local_simulation_mode,
            local_player_entity_id,
            local_player_guid,
            ctrl,
            e,
            now_ms,
            decisions[i].0,
            decisions[i].1,
        )
        &&& regs[i + 1] == registry_after(regs[i], decisions[i].0, entities[i].entity_bits)
        &&& remotes[i + 1] == remote_registry_after(remotes[i], decisions[i].0, entities[i].entity_bits)
    }
}

fn holds_bits(v: &Vec<u64>, x: u64) -> (r: bool)
    ensures
        r == v@.contains(x),
{
    let mut i: usize = 0;
    while i < v.len()
        invariant
            i <= v@.len(),
            forall|j: int| 0 <= j < i ==> v@[j] != x,
        decreases v.len() - i,
    {
        if v[i] == x {
            return true;
        }
        i = i + 1;
    }
    false
}



/// Updates the registries for a decision on the entity with these bits (see
/// `registry_after` and `remote_registry_after`).
fn apply_registration(
    registry: &mut Vec<RuntimeEntityEntry>,
    remote_registry: &mut Vec<RuntimeEntityEntry>,
    d: &AdoptionDecision,
    bits: u64,
)
    requires
        keys_unique(old(registry)@),
        keys_unique(old(remote_registry)@),
    ensures
        keys_unique(final(registry)@),
        keys_unique(final(remote_registry)@),
        registry_bits(final(registry)@) == registry_after(registry_bits(old(registry)@), *d, bits),
        registry_bits(final(remote_registry)@) == remote_registry_after(registry_bits(old(remote_registry)@), *d, bits),
{
    let ghost r0 = registry@;
    let ghost m0 = remote_registry@;
    match d {
        AdoptionDecision::Adopt { runtime_entity_id, drop_stale_registration, register, role, .. } => {
            if *drop_stale_registration {
                remove_keyed(registry, runtime_entity_id);
            }
            let ghost r1 = registry@;
            if *register {
                upsert_keyed(registry, RuntimeEntityEntry { entity_id: runtime_entity_id.clone(), entity_bits: bits });
            }
            match role {
                AdoptionRole::RemoteRoot => {
                    upsert_keyed(
                        remote_registry,
                        RuntimeEntityEntry { entity_id: runtime_entity_id.clone(), entity_bits: bits },
                    );
                },
                _ => {},
            }
            proof {
                assert(registry_bits(r1) =~= if *drop_stale_registration {
                    registry_bits(r0).remove(runtime_entity_id@)
                } else {
                    registry_bits(r0)
                });
                assert(registry_bits(registry@) =~= registry_after(registry_bits(r0), *d, bits));
                assert(registry_bits(remote_registry@) =~= remote_registry_after(registry_bits(m0), *d, bits));
            }
        },
        _ => {},
    }
}

/// One step of the adoption pass (see `adopt_native_lightyear_replicated_entities`).
fn adopt_one(
    adoption_state: &mut DeferredPredictedAdoptionState,
    registry: &mut Vec<RuntimeEntityEntry>,
    remote_registry: &mut Vec<RuntimeEntityEntry>,
    tuning: &PredictionBootstrapTuning,
    local_simulation_mode: bool,
    lp: &String,
    local_player_guid: Option<u128>,
    controlled_entity_id: &Option<String>,
    e: ReplicatedEntityView,
    live_entities: &Vec<u64>,
    now_ms: u64,
) -> (r: (AdoptionDecision, bool))
    requires
        keys_unique(old(registry)@),
        keys_unique(old(remote_registry)@),
    ensures
        keys_unique(final(registry)@),
        keys_unique(final(remote_registry)@),
        adoption_step(
            *old(adoption_state),
            *final(adoption_state),
            *tuning,
            local_simulation_mode,
            lp@,
            local_player_guid,
            ov(*controlled_entity_id),
            with_registration(e, registration_in(registry_bits(old(registry)@), uuid_display(e.guid), live_entities@)),
            now_ms,
            r.0,
            r.1,
        ),
        registry_bits(final(registry)@) == registry_after(registry_bits(old(registry)@), r.0, e.entity_bits),
        registry_bits(final(remote_registry)@) == remote_registry_after(registry_bits(old(remote_registry)@), r.0, e.entity_bits),
{
    let ghost e0 = e;
    let mut e = e;
    let rid = uuid_to_string(e.guid);
    let registration = match find_key(registry, &rid) {
        Some(p) => {
            let bits = registry[p].entity_bits;
            Some((bits, holds_bits(live_entities, bits)))
        },
        None => None,
    };
    assert(registration == registration_in(registry_bits(registry@), uuid_display(e0.guid), live_entities@));
    e.registered = registration;
    assert(e == with_registration(e0, registration));
    let (d, warn) = adopt_replicated_entity(
        adoption_state,
        tuning,
        local_simulation_mode,
        lp,
        local_player_guid,
        controlled_entity_id,
        &e,
        now_ms,
    );
    apply_registration(registry, remote_registry, &d, e.entity_bits);
    (d, warn)
}

/// Adopts the replicated entities not handled yet, in order (nothing without a local player):
/// replication counts as seen; each entity is decided on by `adopt_replicated_entity`, seeing
/// what the registry holds for its runtime id at that point (so a later copy of an id that an
/// earlier one registered is hidden); a stale entry is dropped, an adopted confirmed copy is
/// registered and an adopted remote root enters the remote registry. Returns each entity's
/// decision and whether a deferral warning is due.
pub fn adopt_native_lightyear_replicated_entities(
    adoption_state: &mut DeferredPredictedAdoptionState,
    replication_state_seen: &mut bool,
    registry: &mut Vec<RuntimeEntityEntry>,
    remote_registry: &mut Vec<RuntimeEntityEntry>,
    tuning: &PredictionBootstrapTuning,
    local_simulation_mode: bool,
    local_player_entity_id: &Option<String>,
    local_player_guid: Option<u128>,
    controlled_entity_id: &Option<String>,
    entities: Vec<ReplicatedEntityView>,
    live_entities: &Vec<u64>,
    now_ms: u64,
) -> (decisions: Vec<(AdoptionDecision, bool)>)
    requires
        keys_unique(old(registry)@),
        keys_unique(old(remote_registry)@),
    ensures
        keys_unique(final(registry)@),
        keys_unique(final(remote_registry)@),
        local_player_entity_id is None ==> {
            &&& decisions@.len() == 0
            &&& *final(adoption_state) == *old(adoption_state)
            &&& *final(replication_state_seen) == *old(replication_state_seen)
            &&& final(registry)@ == old(registry)@
            &&& final(remote_registry)@ == old(remote_registry)@
        },
        local_player_entity_id matches Some(lp) ==> {
            &&& decisions@.len() == entities@.len()
            &&& *final(replication_state_seen) == (*old(replication_state_seen) || entities@.len() > 0)
            &&& exists|states: Seq<DeferredPredictedAdoptionState>, regs: Seq<Map<Seq<char>, u64>>, remotes: Seq<Map<Seq<char>, u64>>|
                #![trigger adoption_pass_steps(states, regs, remotes, *tuning, local_simulation_mode, lp@, local_player_guid,
                    ov(*controlled_entity_id), entities@, live_entities@, now_ms, decisions@,
                    entities@.len() as int)]
                {
                &&& states.len() == entities@.len() + 1
                &&& regs.len() == entities@.len() + 1
                &&& remotes.len() == entities@.len() + 1
                &&& states[0] == *old(adoption_state)
                &&& states[entities@.len() as int] == *final(adoption_state)
                &&& regs[0] == registry_bits(old(registry)@)
                &&& regs[entities@.len() as int] == registry_bits(final(registry)@)
                &&& remotes[0] == registry_bits(old(remote_registry)@)
                &&& remotes[entities@.len() as int] == registry_bits(final(remote_registry)@)
                &&& adoption_pass_steps(states, regs, remotes, *tuning, local_simulation_mode, lp@, local_player_guid,
                    ov(*controlled_entity_id), entities@, live_entities@, now_ms, decisions@,
                    entities@.len() as int)
            }
        },
{
    let lp = match local_player_entity_id {
        Some(l) => l,
        None => return Vec::new(),
    };
    let ghost ctrl = ov(*controlled_entity_id);
    let ghost orig = entities@;
    let n = entities.len();
    let mut rest = entities;
    let mut decisions: Vec<(AdoptionDecision, bool)> = Vec::new();
    let ghost mut states: Seq<DeferredPredictedAdoptionState> = seq![*adoption_state];
    let ghost mut regs: Seq<Map<Seq<char>, u64>> = seq![registry_bits(registry@)];
    let ghost mut remotes: Seq<Map<Seq<char>, u64>> = seq![registry_bits(remote_registry@)];
    let ghost seen0 = *replication_state_seen;
    let mut i: usize = 0;
    while rest.len() > 0
        invariant
            n == orig.len(),
            i <= n,
            ctrl == ov(*controlled_entity_id),
            *local_player_entity_id == Some(*lp),
            rest@ == orig.subrange(i as int, n as int),
            decisions@.len() == i,
            keys_unique(registry@),
            keys_unique(remote_registry@),
            states.len() == i + 1,
            regs.len() == i + 1,
            remotes.len() == i + 1,
            states[0] == *old(adoption_state),
            regs[0] == registry_bits(old(registry)@),
            remotes[0] == registry_bits(old(remote_registry)@),
            states[i as int] == *adoption_state,
            regs[i as int] == registry_bits(registry@),
            remotes[i as int] == registry_bits(remote_registry@),
            *replication_state_seen == (seen0 || i > 0),
            adoption_pass_steps(states, regs, remotes, *tuning, local_simulation_mode, lp@, local_player_guid, ctrl, orig,
                live_entities@, now_ms, decisions@, i as int),
        decreases rest.len(),
    {
        let e = rest.remove(0);
        assert(e == orig[i as int]);
        *replication_state_seen = true;
        let ghost a0 = *adoption_state;
        let (d, warn) = adopt_one(
            adoption_state,
            registry,
            remote_registry,
            tuning,
            local_simulation_mode,
            lp,
            local_player_guid,
            controlled_entity_id,
            e,
            live_entities,
            now_ms,
        );
        let ghost a1 = *adoption_state;
        let ghost dg = d;
        let ghost wg = warn;
        let ghost dec_before = decisions@;
        decisions.push((d, warn));
        proof {
            let st_before = states;
            let rg_before = regs;
            let rm_before = remotes;
            assert(adoption_pass_steps(st_before, rg_before, rm_before, *tuning, local_simulation_mode, lp@, local_player_guid,
                ctrl, orig, live_entities@, now_ms, dec_before, i as int));
            states = states.push(*adoption_state);
            regs = regs.push(registry_bits(registry@));
            remotes = remotes.push(registry_bits(remote_registry@));
            assert forall|k: int| #![trigger decisions@[k]] 0 <= k < i + 1 implies {
                let ek = with_registration(orig[k], registration_in(regs[k], uuid_display(orig[k].guid), live_entities@));
                &&& adoption_step(states[k], states[k + 1], *tuning, local_simulation_mode, lp@, local_player_guid, ctrl, ek,
                    now_ms, decisions@[k].0, decisions@[k].1)
                &&& regs[k + 1] == registry_after(regs[k], decisions@[k].0, orig[k].entity_bits)
                &&& remotes[k + 1] == remote_registry_after(remotes[k], decisions@[k].0, orig[k].entity_bits)
            } by {
                if k < i {
                    assert(decisions@[k] == dec_before[k]);
                    assert(states[k] == st_before[k] && states[k + 1] == st_before[k + 1]);
                    assert(regs[k] == rg_before[k] && regs[k + 1] == rg_before[k + 1]);
                    assert(remotes[k] == rm_before[k] && remotes[k + 1] == rm_before[k + 1]);
                } else {
                    assert(decisions@[k] == (dg, wg));
                    assert(states[k] == a0 && states[k + 1] == a1);
                }
            }
        }
        i = i + 1;
        assert(rest@ =~= orig.subrange(i as int, n as int));
    }
    decisions
}

} // verus!
