//! Motion ownership: which local copy simulates the controlled entity, and which nearby remote
//! entities keep kinematic collision proxies. Times are in milliseconds.

use vstd::prelude::*;
use crate::guid::parse_entity_id_guid;

verus! {

/// When motion ownership was last reconciled, and for which target.
#[derive(Debug)]
pub struct MotionOwnershipReconcileState {
    pub last_target_guid: Option<u128>,
    pub last_target_entity: Option<u64>,
    pub last_reconcile_at_ms: u64,
    pub dirty: bool,
    pub missing_predicted_warn_at_ms: u64,
}

/// How many nearby collision proxies to keep, and how often to refresh them.
#[derive(Debug, Clone, Copy)]
pub struct NearbyCollisionProxyTuning {
    pub max_proxies: usize,
    pub reconcile_interval_ms: u64,
}

/// What the reconciliation sees of a world entity.
#[derive(Debug, Clone, Copy)]
pub struct MotionEntityView {
    pub entity_bits: u64,
    pub controlled: bool,
    pub mounted: bool,
    pub has_hardpoint: bool,
    pub has_player_tag: bool,
    pub guid: Option<u128>,
    pub has_size: bool,
    pub has_positive_mass: bool,
    pub collidable: bool,
    pub has_rigidbody: bool,
    pub interpolation_history_ready: bool,
    pub is_suppressed: bool,
    pub is_predicted: bool,
    pub is_interpolated: bool,
}

impl MotionOwnershipReconcileState {
    pub fn new() -> (r: Self)
        ensures
            r.last_target_guid is None,
            r.last_target_entity is None,
            r.last_reconcile_at_ms == 0,
            !r.dirty,
            r.missing_predicted_warn_at_ms == 0,
    {
        MotionOwnershipReconcileState {
            last_target_guid: None,
            last_target_entity: None,
            last_reconcile_at_ms: 0,
            dirty: false,
            missing_predicted_warn_at_ms: 0,
        }
    }
}

/// Marks the reconciliation dirty when the session or view changed or world entities appeared.
pub fn mark_motion_ownership_dirty(state: &mut MotionOwnershipReconcileState, changed: bool)
    ensures
        final(state).dirty == (old(state).dirty || changed),
        final(state).last_reconcile_at_ms == old(state).last_reconcile_at_ms,
        final(state).last_target_guid == old(state).last_target_guid,
        final(state).last_target_entity == old(state).last_target_entity,
{
    if changed {
        state.dirty = true;
    }
}

pub open spec fn is_root(e: MotionEntityView) -> bool {
    !e.mounted && !e.has_hardpoint && !e.has_player_tag && e.guid is Some
}

pub open spec fn is_anchor(e: MotionEntityView) -> bool {
    !e.mounted && !e.has_hardpoint && e.has_player_tag && e.guid is Some
}

/// The lane score of a copy of the target: predicted over interpolated over confirmed.
pub open spec fn copy_score(e: MotionEntityView) -> int {
    if e.is_predicted { 3 } else if e.is_interpolated { 2 } else { 1 }
}

/// The copy of the target GUID that owns its motion among the first `n` entities: the highest
/// score, the lowest entity bits on a tie.
pub open spec fn target_among(es: Seq<MotionEntityView>, guid: u128, n: int) -> Option<int>
    decreases n,
{
    if n <= 0 {
        None
    } else {
        let r = target_among(es, guid, n - 1);
        let x = es[n - 1];
        if (is_root(x) || is_anchor(x)) && x.guid == Some(guid) {
            match r {
                Some(i) => if copy_score(x) > copy_score(es[i]) || (copy_score(x) == copy_score(es[i])
                    && x.entity_bits < es[i].entity_bits) {
                    Some(n - 1)
                } else {
                    Some(i)
                },
                None => Some(n - 1),
            }
        } else {
            r
        }
    }
}

/// What the target selection concluded.
#[derive(Debug)]
pub enum MotionTargetDecision {
    /// A rollback is running, or nothing is dirty and no proxy refresh is due.
    Skip,
    /// The control target's GUID is not known yet, or no copy of it exists.
    NoTarget,
    /// Only non-predicted copies of a non-anchor target exist; `warn` when a warning is due.
    WaitingForPredicted { target_guid: u128, warn: bool },
    /// The copy at this position owns the target's motion.
    Target { index: usize, target_guid: u128 },
}

/// Whether a reconciliation runs now: it is dirty, or proxies are kept and the refresh
/// interval (at least 10 ms) has passed.
pub open spec fn reconcile_due(st: &MotionOwnershipReconcileState, tuning: NearbyCollisionProxyTuning, now_ms: u64) -> bool {
    let interval = if tuning.reconcile_interval_ms < 10 { 10 } else { tuning.reconcile_interval_ms };
    st.dirty || (tuning.max_proxies > 0 && now_ms as int - st.last_reconcile_at_ms as int >= interval as int)
}

/// Chooses the copy that owns the control target's motion. The target is the controlled
/// entity, else the player's own; its GUID is what the runtime-sync parser found in its id
/// (`target_runtime_sync_guid`), else the id read as a UUID. A non-anchor target needs a
/// predicted copy: control never binds to a confirmed or interpolated one.
pub fn select_motion_target(
    state: &mut MotionOwnershipReconcileState,
    tuning: NearbyCollisionProxyTuning,
    entities: &Vec<MotionEntityView>,
    target_control_id: &Option<String>,
    target_runtime_sync_guid: Option<u128>,
    player_guid: Option<u128>,
    in_rollback: bool,
    now_ms: u64,
) -> (r: MotionTargetDecision)
    ensures
        in_rollback || !reconcile_due(&*old(state), tuning, now_ms) ==> r is Skip && *final(state) == *old(state),
        !in_rollback && reconcile_due(&*old(state), tuning, now_ms) ==> {
            let g = match target_control_id {
                Some(id) => crate::guid::entity_id_guid_spec(id@, target_runtime_sync_guid),
                None => None,
            };
            match g {
                None => r is NoTarget && *final(state) == *old(state),
                Some(guid) => match target_among(entities@, guid, entities@.len() as int) {
                    None => r is NoTarget && *final(state) == *old(state),
                    Some(i) => if player_guid != Some(guid) && !entities@[i].is_predicted {
                        let warn = now_ms as int - old(state).missing_predicted_warn_at_ms as int >= 1000;
                        &&& r matches MotionTargetDecision::WaitingForPredicted { target_guid, warn: w }
                            && target_guid == guid && w == warn
                        &&& final(state).missing_predicted_warn_at_ms == if warn {
                            now_ms
                        } else {
                            old(state).missing_predicted_warn_at_ms
                        }
                        &&& final(state).dirty == old(state).dirty
                        &&& final(state).last_reconcile_at_ms == old(state).last_reconcile_at_ms
                        &&& final(state).last_target_guid == old(state).last_target_guid
                        &&& final(state).last_target_entity == old(state).last_target_entity
                    } else {
                        r matches MotionTargetDecision::Target { index, target_guid } && index == i && target_guid
                            == guid && *final(state) == *old(state)
                    },
                },
            }
        },
{
    if in_rollback {
        return MotionTargetDecision::Skip;
    }
    let interval = if tuning.reconcile_interval_ms < 10 { 10 } else { tuning.reconcile_interval_ms };
    let refresh_due = tuning.max_proxies > 0 && now_ms >= state.last_reconcile_at_ms
        && now_ms - state.last_reconcile_at_ms >= interval;
    if !state.dirty && !refresh_due {
        return MotionTargetDecision::Skip;
    }
    let guid = match target_control_id {
        Some(id) => match parse_entity_id_guid(id.as_str(), target_runtime_sync_guid) {
            Some(g) => g,
            None => return MotionTargetDecision::NoTarget,
        },
        None => return MotionTargetDecision::NoTarget,
    };
    let ghost es = entities@;
    let mut best: Option<usize> = None;
    let mut k: usize = 0;
    while k < entities.len()
        invariant
            es == entities@,
            k <= es.len(),
            match target_among(es, guid, k as int) {
                Some(i) => best == Some(i as usize) && 0 <= i < k,
                None => best is None,
            },
        decreases entities.len() - k,
    {
        let x = entities[k];
        let candidate = !x.mounted && !x.has_hardpoint && x.guid.is_some() && x.guid == Some(guid);
        if candidate {
            let sx: u8 = if x.is_predicted { 3 } else if x.is_interpolated { 2 } else { 1 };
            best = match best {
                Some(b) => {
                    let y = entities[b];
                    let sy: u8 = if y.is_predicted { 3 } else if y.is_interpolated { 2 } else { 1 };
                    if sx > sy || (sx == sy && x.entity_bits < y.entity_bits) { Some(k) } else { Some(b) }
                },
                None => Some(k),
            };
        }
        k = k + 1;
    }
    let i = match best {
        Some(i) => i,
        None => return MotionTargetDecision::NoTarget,
    };
    let is_player_anchor_target = match player_guid {
        Some(p) => p == guid,
        None => false,
    };
    if !is_player_anchor_target && !entities[i].is_predicted {
        let warn = now_ms >= state.missing_predicted_warn_at_ms && now_ms - state.missing_predicted_warn_at_ms >= 1000;
        if warn {
            state.missing_predicted_warn_at_ms = now_ms;
        }
        return MotionTargetDecision::WaitingForPredicted { target_guid: guid, warn };
    }
    MotionTargetDecision::Target { index: i, target_guid: guid }
}

/// How the owning copy's physics body changes.
#[derive(Debug, Clone, Copy, PartialEq, Eq)]
pub enum TargetBodyChange {
    /// It has size, mass and a collidable profile but no body yet: insert a dynamic body.
    InsertDynamic,
    /// It has size and mass, a body, but a profile that does not collide: remove the body.
    Remove,
    Keep,
}

/// What the reconciliation does to one entity.
#[derive(Debug, Clone, Copy, PartialEq, Eq)]
pub enum MotionEntityAction {
    /// The owning copy is the free-roam player anchor: no proxy and no physics body.
    TargetAnchor,
    /// The owning copy of a root entity: no proxy; its body changes as given.
    TargetBody(TargetBodyChange),
    /// Not a root entity: nothing beyond the control marker.
    NotRoot,
    /// A suppressed duplicate: no proxy and no physics.
    StripSuppressed,
    /// A nearby interpolated entity whose spatial history is not there yet: no proxy and no
    /// physics, so that local physics does not seed it at the origin.
    StripUnready,
    /// A nearby collidable entity with a size: a kinematic proxy without mass.
    KinematicProxy,
    /// A nearby entity without size or collision: no body.
    DropProxyBody,
    /// Any other root entity: no proxy and no physics.
    StripPhysics,
}

/// The plan for one entity.
#[derive(Debug, Clone, Copy)]
pub struct MotionEntityPlan {
    pub action: MotionEntityAction,
    /// The entity loses its control marker (it is not the owning copy).
    pub remove_controlled: bool,
    /// The owning copy loses its suppressed-duplicate marker.
    pub unsuppress: bool,
}

/// Whether an entity may keep a nearby proxy: a root entity other than the target and its
/// duplicates, not controlled or suppressed, with a distance key (it has a position within
/// the proxy radius of the target).
pub open spec fn proxy_eligible(e: MotionEntityView, key: Option<u32>, target_index: int, i: int, target_guid: u128) -> bool {
    is_root(e) && !e.controlled && i != target_index && !e.is_suppressed && e.guid != Some(target_guid) && key is Some
}

/// How many eligible entities among the first `n` come before entity `i` in distance order
/// (nearer first, earlier first on a tie).
pub open spec fn nearer_count(
    es: Seq<MotionEntityView>,
    keys: Seq<Option<u32>>,
    target_index: int,
    target_guid: u128,
    i: int,
    n: int,
) -> int
    decreases n,
{
    if n <= 0 {
        0
    } else {
        let j = n - 1;
        let before = proxy_eligible(es[j], keys[j], target_index, j, target_guid) && (keys[j].unwrap() < keys[i].unwrap()
            || (keys[j].unwrap() == keys[i].unwrap() && j < i));
        nearer_count(es, keys, target_index, target_guid, i, n - 1) + if before { 1int } else { 0int }
    }
}

/// Whether entity `i` keeps a proxy: it is eligible and fewer than `max_proxies` eligible
/// entities come before it in distance order.
pub open spec fn keeps_proxy(
    es: Seq<MotionEntityView>,
    keys: Seq<Option<u32>>,
    target_index: int,
    target_guid: u128,
    max_proxies: int,
    i: int,
) -> bool {
    proxy_eligible(es[i], keys[i], target_index, i, target_guid) && nearer_count(
        es,
        keys,
        target_index,
        target_guid,
        i,
        es.len() as int,
    ) < max_proxies
}

/// What the reconciliation does to entity `i`.
pub open spec fn motion_action_spec(e: MotionEntityView, is_target: bool, keep_proxy: bool) -> MotionEntityAction {
    if is_target {
        if !e.mounted && !e.has_hardpoint && e.has_player_tag && e.guid is Some {
            MotionEntityAction::TargetAnchor
        } else {
            let physics = e.has_size && e.has_positive_mass;
            MotionEntityAction::TargetBody(
                if physics && e.collidable && !e.has_rigidbody {
                    TargetBodyChange::InsertDynamic
                } else if physics && !e.collidable && e.has_rigidbody {
                    TargetBodyChange::Remove
                } else {
                    TargetBodyChange::Keep
                },
            )
        }
    } else if !is_root(e) {
        MotionEntityAction::NotRoot
    } else if e.is_suppressed {
        MotionEntityAction::StripSuppressed
    } else if keep_proxy {
        if e.is_interpolated && !e.interpolation_history_ready {
            MotionEntityAction::StripUnready
        } else if e.has_size && e.collidable {
            MotionEntityAction::KinematicProxy
        } else {
            MotionEntityAction::DropProxyBody
        }
    } else {
        MotionEntityAction::StripPhysics
    }
}

/// Counts, for entity `i`, the eligible entities that come before it.
fn count_nearer(
    entities: &Vec<MotionEntityView>,
    keys: &Vec<Option<u32>>,
    target_index: usize,
    target_guid: u128,
    i: usize,
) -> (r: usize)
    requires
        entities@.len() == keys@.len(),
        i < entities@.len(),
        keys@[i as int] is Some,
    ensures
        r == nearer_count(entities@, keys@, target_index as int, target_guid, i as int, entities@.len() as int),
{
    let ki = keys[i].unwrap();
    let mut c: usize = 0;
    let mut j: usize = 0;
    while j < entities.len()
        invariant
            entities@.len() == keys@.len(),
            i < entities@.len(),
            keys@[i as int] == Some(ki),
            j <= entities@.len(),
            c == nearer_count(entities@, keys@, target_index as int, target_guid, i as int, j as int),
            c <= j,
        decreases entities.len() - j,
    {
        let e = entities[j];
        let eligible = !e.mounted && !e.has_hardpoint && !e.has_player_tag && e.guid.is_some() && !e.controlled
            && j != target_index && !e.is_suppressed && e.guid != Some(target_guid) && keys[j].is_some();
        if eligible {
            let kj = keys[j].unwrap();
            if kj < ki || (kj == ki && j < i) {
                c = c + 1;
            }
        }
        j = j + 1;
    }
    c
}

/// Plans what the reconciliation does to every entity once the owning copy (`target_index`)
/// is known. `distance_keys` gives, per entity, a key that orders entities by their squared
/// distance to the owning copy, present only for those within the proxy radius. The
/// `max_proxies` nearest eligible entities keep proxies. The reconciliation is then recorded
/// as done.
pub fn plan_motion_ownership(
    state: &mut MotionOwnershipReconcileState,
    entities: &Vec<MotionEntityView>,
    distance_keys: &Vec<Option<u32>>,
    target_index: usize,
    target_guid: u128,
    max_proxies: usize,
    now_ms: u64,
) -> (r: Vec<MotionEntityPlan>)
    requires
        entities@.len() == distance_keys@.len(),
        target_index < entities@.len(),
    ensures
        r@.len() == entities@.len(),
        forall|i: int| 0 <= i < entities@.len() ==> {
            let e = entities@[i];
            let t = i == target_index;
            &&& (#[trigger] r@[i]).action == motion_action_spec(
                e,
                t,
                keeps_proxy(entities@, distance_keys@, target_index as int, target_guid, max_proxies as int, i),
            )
            &&& r@[i].remove_controlled == (!t && e.controlled)
            &&& r@[i].unsuppress == (t && e.is_suppressed)
        },
        final(state).last_target_guid == Some(target_guid),
        final(state).last_target_entity == Some(entities@[target_index as int].entity_bits),
        final(state).last_reconcile_at_ms == now_ms,
        !final(state).dirty,
        final(state).missing_predicted_warn_at_ms == old(state).missing_predicted_warn_at_ms,
{
    let mut plans: Vec<MotionEntityPlan> = Vec::new();
    let mut i: usize = 0;
    while i < entities.len()
        invariant
            entities@.len() == distance_keys@.len(),
            target_index < entities@.len(),
            i <= entities@.len(),
            plans@.len() == i,
            forall|k: int| 0 <= k < i ==> {
                let e = entities@[k];
                let t = k == target_index;
                &&& (#[trigger] plans@[k]).action == motion_action_spec(
                    e,
                    t,
                    keeps_proxy(entities@, distance_keys@, target_index as int, target_guid, max_proxies as int, k),
                )
                &&& plans@[k].remove_controlled == (!t && e.controlled)
                &&& plans@[k].unsuppress == (t && e.is_suppressed)
            },
        decreases entities.len() - i,
    {
        let e = entities[i];
        let is_target = i == target_index;
        let root = !e.mounted && !e.has_hardpoint && !e.has_player_tag && e.guid.is_some();
        let action = if is_target {
            if !e.mounted && !e.has_hardpoint && e.has_player_tag && e.guid.is_some() {
                MotionEntityAction::TargetAnchor
            } else {
                let physics = e.has_size && e.has_positive_mass;
                MotionEntityAction::TargetBody(
                    if physics && e.collidable && !e.has_rigidbody {
                        TargetBodyChange::InsertDynamic
                    } else if physics && !e.collidable && e.has_rigidbody {
                        TargetBodyChange::Remove
                    } else {
                        TargetBodyChange::Keep
                    },
                )
            }
        } else if !root {
            MotionEntityAction::NotRoot
        } else if e.is_suppressed {
            MotionEntityAction::StripSuppressed
        } else {
            let eligible = !e.controlled && e.guid != Some(target_guid) && distance_keys[i].is_some();
            let keep = if eligible {
                count_nearer(entities, distance_keys, target_index, target_guid, i) < max_proxies
            } else {
                false
            };
            assert(keep == keeps_proxy(entities@, distance_keys@, target_index as int, target_guid, max_proxies as int, i as int));
            if keep {
                if e.is_interpolated && !e.interpolation_history_ready {
                    MotionEntityAction::StripUnready
                } else if e.has_size && e.collidable {
                    MotionEntityAction::KinematicProxy
                } else {
                    MotionEntityAction::DropProxyBody
                }
            } else {
                MotionEntityAction::StripPhysics
            }
        };
        plans.push(MotionEntityPlan {
            action,
            remove_controlled: !is_target && e.controlled,
            unsuppress: is_target && e.is_suppressed,
        });
        i = i + 1;
    }
    state.last_target_guid = Some(target_guid);
    state.last_target_entity = Some(entities[target_index].entity_bits);
    state.last_reconcile_at_ms = now_ms;
    state.dirty = false;
    plans
}

/// At most `max_proxies` entities keep a proxy: their distance ranks are distinct and below it.
pub proof fn lemma_proxy_ranks_distinct(
    es: Seq<MotionEntityView>,
    keys: Seq<Option<u32>>,
    target_index: int,
    target_guid: u128,
    a: int,
    b: int,
)
    requires
        es.len() == keys.len(),
        0 <= a < es.len(),
        0 <= b < es.len(),
        a != b,
        proxy_eligible(es[a], keys[a], target_index, a, target_guid),
        proxy_eligible(es[b], keys[b], target_index, b, target_guid),
    ensures
        nearer_count(es, keys, target_index, target_guid, a, es.len() as int) != nearer_count(
            es,
            keys,
            target_index,
            target_guid,
            b,
            es.len() as int,
        ),
{
    let ka = keys[a].unwrap();
    let kb = keys[b].unwrap();
    if ka < kb || (ka == kb && a < b) {
        lemma_nearer_count_step(es, keys, target_index, target_guid, a, b, es.len() as int);
    } else {
        lemma_nearer_count_step(es, keys, target_index, target_guid, b, a, es.len() as int);
    }
}

/// When `a` comes before `b`, everything before `a` is before `b`, and `a` is too.
proof fn lemma_nearer_count_step(
    es: Seq<MotionEntityView>,
    keys: Seq<Option<u32>>,
    target_index: int,
    target_guid: u128,
    a: int,
    b: int,
    n: int,
)
    requires
        es.len() == keys.len(),
        0 <= a < es.len(),
        0 <= b < es.len(),
        a != b,
        0 <= n <= es.len(),
        proxy_eligible(es[a], keys[a], target_index, a, target_guid),
        proxy_eligible(es[b], keys[b], target_index, b, target_guid),
        keys[a].unwrap() < keys[b].unwrap() || (keys[a].unwrap() == keys[b].unwrap() && a < b),
    ensures
        nearer_count(es, keys, target_index, target_guid, b, n) >= nearer_count(es, keys, target_index, target_guid, a, n)
            + if a < n { 1int } else { 0int },
    decreases n,
{
    if n > 0 {
        lemma_nearer_count_step(es, keys, target_index, target_guid, a, b, n - 1);
    }
}

} // verus!
