//! The debug overlay's choice of which local copy of an entity to draw, and in which lane.
//! The pose data `P` of a copy is carried through untouched.

use vstd::prelude::*;

verus! {

/// The lane in which an entity is drawn.
#[derive(Debug, Clone, Copy, PartialEq, Eq)]
pub enum DebugEntityLane {
    Predicted,
    Confirmed,
    ConfirmedGhost,
    Interpolated,
    Auxiliary,
}

/// A local copy of a root entity.
#[derive(Debug)]
pub struct RootDebugCandidate<P> {
    pub entity_bits: u64,
    pub is_controlled: bool,
    pub is_replicated: bool,
    pub is_interpolated: bool,
    pub is_predicted: bool,
    pub has_confirmed_wrappers: bool,
    /// The last confirmed pose of a predicted copy, at rest.
    pub confirmed_pose: Option<P>,
    pub pose: P,
}

/// A local copy of a mounted entity, with the GUID of its root.
#[derive(Debug)]
pub struct AuxiliaryDebugCandidate<P> {
    pub entity_bits: u64,
    pub guid: u128,
    pub parent_root_guid: u128,
    pub is_replicated: bool,
    pub is_interpolated: bool,
    pub is_predicted: bool,
    pub pose: P,
}

/// Which copies a pick considers.
#[derive(Debug, Clone, Copy, PartialEq, Eq)]
pub enum CopyFilter {
    Predicted,
    Interpolated,
    Replicated,
    ReplicatedNotInterpolated,
    ReplicatedNotPredicted,
    ReplicatedOnly,
}

/// Whether a copy with these markers passes the filter.
pub open spec fn passes(f: CopyFilter, replicated: bool, interpolated: bool, predicted: bool) -> bool {
    match f {
        CopyFilter::Predicted => predicted,
        CopyFilter::Interpolated => interpolated,
        CopyFilter::Replicated => replicated,
        CopyFilter::ReplicatedNotInterpolated => replicated && !interpolated,
        CopyFilter::ReplicatedNotPredicted => replicated && !predicted,
        CopyFilter::ReplicatedOnly => replicated && !predicted && !interpolated,
    }
}

/// Whether a copy with these markers passes the filter.
pub fn passes_filter(f: CopyFilter, replicated: bool, interpolated: bool, predicted: bool) -> (r: bool)
    ensures
        r == passes(f, replicated, interpolated, predicted),
{
    match f {
        CopyFilter::Predicted => predicted,
        CopyFilter::Interpolated => interpolated,
        CopyFilter::Replicated => replicated,
        CopyFilter::ReplicatedNotInterpolated => replicated && !interpolated,
        CopyFilter::ReplicatedNotPredicted => replicated && !predicted,
        CopyFilter::ReplicatedOnly => replicated && !predicted && !interpolated,
    }
}

/// The position of the root copy with the lowest entity bits among those passing `f`; the
/// first one on a tie.
pub open spec fn best_root<P>(c: Seq<RootDebugCandidate<P>>, f: CopyFilter) -> Option<int>
    decreases c.len(),
{
    if c.len() == 0 {
        None
    } else {
        let r = best_root(c.drop_last(), f);
        let x = c.last();
        if passes(f, x.is_replicated, x.is_interpolated, x.is_predicted) {
            match r {
                Some(i) => if c[i].entity_bits <= x.entity_bits { Some(i) } else { Some(c.len() - 1) },
                None => Some(c.len() - 1),
            }
        } else {
            r
        }
    }
}

/// The position of the auxiliary copy with the lowest entity bits among those passing `f`.
pub open spec fn best_aux<P>(c: Seq<AuxiliaryDebugCandidate<P>>, f: CopyFilter) -> Option<int>
    decreases c.len(),
{
    if c.len() == 0 {
        None
    } else {
        let r = best_aux(c.drop_last(), f);
        let x = c.last();
        if passes(f, x.is_replicated, x.is_interpolated, x.is_predicted) {
            match r {
                Some(i) => if c[i].entity_bits <= x.entity_bits { Some(i) } else { Some(c.len() - 1) },
                None => Some(c.len() - 1),
            }
        } else {
            r
        }
    }
}

proof fn lemma_best_root_prefix<P>(c: Seq<RootDebugCandidate<P>>, f: CopyFilter, n: int)
    requires
        0 <= n <= c.len(),
    ensures
        best_root(c.take(n), f) matches Some(i) ==> 0 <= i < n,
    decreases n,
{
    if n > 0 {
        assert(c.take(n).drop_last() =~= c.take(n - 1));
        lemma_best_root_prefix(c, f, n - 1);
    }
}

proof fn lemma_best_aux_prefix<P>(c: Seq<AuxiliaryDebugCandidate<P>>, f: CopyFilter, n: int)
    requires
        0 <= n <= c.len(),
    ensures
        best_aux(c.take(n), f) matches Some(i) ==> 0 <= i < n,
    decreases n,
{
    if n > 0 {
        assert(c.take(n).drop_last() =~= c.take(n - 1));
        lemma_best_aux_prefix(c, f, n - 1);
    }
}

/// Picks the root copy with the lowest entity bits among those passing `f`.
pub fn pick_best_candidate<P>(candidates: &Vec<RootDebugCandidate<P>>, f: CopyFilter) -> (r: Option<usize>)
    ensures
        match best_root(candidates@, f) {
            Some(i) => r == Some(i as usize),
            None => r is None,
        },
{
    let ghost c = candidates@;
    let mut best: Option<usize> = None;
    let mut k: usize = 0;
    assert(c.take(0) =~= Seq::<RootDebugCandidate<P>>::empty());
    while k < candidates.len()
        invariant
            c == candidates@,
            k <= c.len(),
            match best_root(c.take(k as int), f) {
                Some(i) => best == Some(i as usize),
                None => best is None,
            },
            best matches Some(b) ==> b < k,
        decreases candidates.len() - k,
    {
        proof {
            lemma_best_root_prefix(c, f, k as int);
        }
        let x = &candidates[k];
        assert(c.take(k + 1).drop_last() =~= c.take(k as int));
        assert(c.take(k + 1).last() == c[k as int]);
        if passes_filter(f, x.is_replicated, x.is_interpolated, x.is_predicted) {
            best = match best {
                Some(b) => if candidates[b].entity_bits <= x.entity_bits { Some(b) } else { Some(k) },
                None => Some(k),
            };
            proof {
                match best_root(c.take(k as int), f) {
                    Some(i) => assert(c.take(k + 1)[i] == c[i]),
                    None => {},
                }
            }
        }
        k = k + 1;
    }
    assert(c.take(k as int) =~= c);
    best
}

/// Picks the auxiliary copy with the lowest entity bits among those passing `f`.
pub fn pick_best_auxiliary_candidate<P>(candidates: &Vec<AuxiliaryDebugCandidate<P>>, f: CopyFilter) -> (r: Option<usize>)
    ensures
        match best_aux(candidates@, f) {
            Some(i) => r == Some(i as usize),
            None => r is None,
        },
{
    let ghost c = candidates@;
    let mut best: Option<usize> = None;
    let mut k: usize = 0;
    assert(c.take(0) =~= Seq::<AuxiliaryDebugCandidate<P>>::empty());
    while k < candidates.len()
        invariant
            c == candidates@,
            k <= c.len(),
            match best_aux(c.take(k as int), f) {
                Some(i) => best == Some(i as usize),
                None => best is None,
            },
            best matches Some(b) ==> b < k,
        decreases candidates.len() - k,
    {
        proof {
            lemma_best_aux_prefix(c, f, k as int);
        }
        let x = &candidates[k];
        assert(c.take(k + 1).drop_last() =~= c.take(k as int));
        assert(c.take(k + 1).last() == c[k as int]);
        if passes_filter(f, x.is_replicated, x.is_interpolated, x.is_predicted) {
            best = match best {
                Some(b) => if candidates[b].entity_bits <= x.entity_bits { Some(b) } else { Some(k) },
                None => Some(k),
            };
            proof {
                match best_aux(c.take(k as int), f) {
                    Some(i) => assert(c.take(k + 1)[i] == c[i]),
                    None => {},
                }
            }
        }
        k = k + 1;
    }
    assert(c.take(k as int) =~= c);
    best
}

/// The lane of the drawn copy: for a controlled entity predicted or confirmed, otherwise
/// interpolated or confirmed.
pub open spec fn primary_lane_spec(is_predicted: bool, is_interpolated: bool, controlled: bool) -> DebugEntityLane {
    if controlled {
        if is_predicted { DebugEntityLane::Predicted } else { DebugEntityLane::Confirmed }
    } else if is_interpolated {
        DebugEntityLane::Interpolated
    } else {
        DebugEntityLane::Confirmed
    }
}

/// The lane of the drawn copy.
pub fn candidate_primary_lane<P>(candidate: &RootDebugCandidate<P>, controlled: bool) -> (r: DebugEntityLane)
    ensures
        r == primary_lane_spec(candidate.is_predicted, candidate.is_interpolated, controlled),
{
    if controlled {
        if candidate.is_predicted { DebugEntityLane::Predicted } else { DebugEntityLane::Confirmed }
    } else if candidate.is_interpolated {
        DebugEntityLane::Interpolated
    } else {
        DebugEntityLane::Confirmed
    }
}

/// Where the confirmed ghost of a controlled entity is drawn.
#[derive(Debug)]
pub enum ConfirmedGhostPose<P> {
    /// At the last confirmed pose of the predicted copy.
    Confirmed(P),
    /// At the drawn copy's own pose, at rest.
    PrimaryAtRest,
}

/// The confirmed ghost drawn beside a controlled entity.
#[derive(Debug)]
pub struct ConfirmedGhost<P> {
    pub entity_bits: u64,
    pub pose: ConfirmedGhostPose<P>,
    /// The ghost keeps the confirmed wrappers only when built from a confirmed pose.
    pub has_confirmed_wrappers: bool,
}

/// The confirmed ghost: a predicted copy shows its last confirmed pose, when known; a
/// replicated copy without confirmed wrappers shows itself at rest; otherwise none.
pub open spec fn confirmed_ghost_spec<P>(p: RootDebugCandidate<P>) -> Option<ConfirmedGhost<P>> {
    if p.is_predicted {
        match p.confirmed_pose {
            Some(q) => Some(
                ConfirmedGhost { entity_bits: p.entity_bits, pose: ConfirmedGhostPose::Confirmed(q), has_confirmed_wrappers: true },
            ),
            None => None,
        }
    } else if p.is_replicated && !p.has_confirmed_wrappers {
        Some(ConfirmedGhost { entity_bits: p.entity_bits, pose: ConfirmedGhostPose::PrimaryAtRest, has_confirmed_wrappers: false })
    } else {
        None
    }
}

/// Builds the confirmed ghost of the drawn copy (see `confirmed_ghost_spec`).
pub fn build_confirmed_ghost_entity<P: Copy>(primary: &RootDebugCandidate<P>) -> (r: Option<ConfirmedGhost<P>>)
    ensures
        r == confirmed_ghost_spec(*primary),
{
    if primary.is_predicted {
        return match &primary.confirmed_pose {
            Some(p) => Some(ConfirmedGhost {
                entity_bits: primary.entity_bits,
                pose: ConfirmedGhostPose::Confirmed(*p),
                has_confirmed_wrappers: true,
            }),
            None => None,
        };
    }
    if primary.is_replicated && !primary.has_confirmed_wrappers {
        return Some(ConfirmedGhost {
            entity_bits: primary.entity_bits,
            pose: ConfirmedGhostPose::PrimaryAtRest,
            has_confirmed_wrappers: false,
        });
    }
    None
}

/// How the copies of one root GUID are drawn.
#[derive(Debug)]
pub struct ResolvedRootCandidates<P> {
    /// The position of the copy drawn.
    pub primary: Option<usize>,
    pub primary_lane: DebugEntityLane,
    pub confirmed_ghost: Option<ConfirmedGhost<P>>,
}

/// Some copy is the controlled one.
pub open spec fn any_controlled<P>(c: Seq<RootDebugCandidate<P>>) -> bool {
    exists|i: int| 0 <= i < c.len() && #[trigger] c[i].is_controlled
}

/// The first non-empty pick of three.
pub open spec fn first_of(a: Option<int>, b: Option<int>, c: Option<int>) -> Option<int> {
    if a is Some { a } else if b is Some { b } else { c }
}

/// The copy drawn for a root GUID: when it is controlled, the predicted copy, else a
/// replicated one that is not interpolated, else an interpolated one; otherwise the
/// interpolated copy, else a replicated one that is not predicted, else a predicted one.
pub open spec fn root_primary_spec<P>(c: Seq<RootDebugCandidate<P>>) -> Option<int> {
    if any_controlled(c) {
        first_of(
            best_root(c, CopyFilter::Predicted),
            best_root(c, CopyFilter::ReplicatedNotInterpolated),
            best_root(c, CopyFilter::Interpolated),
        )
    } else {
        first_of(
            best_root(c, CopyFilter::Interpolated),
            best_root(c, CopyFilter::ReplicatedNotPredicted),
            best_root(c, CopyFilter::Predicted),
        )
    }
}

/// Decides how the copies of one root GUID are drawn (see `root_primary_spec`); a
/// controlled entity also gets its confirmed ghost.
pub fn resolve_root_candidates<P: Copy>(candidates: &Vec<RootDebugCandidate<P>>) -> (r: ResolvedRootCandidates<P>)
    ensures
        match root_primary_spec(candidates@) {
            Some(i) => r.primary == Some(i as usize),
            None => r.primary is None,
        },
        r.primary_lane == match root_primary_spec(candidates@) {
            Some(i) => primary_lane_spec(candidates@[i].is_predicted, candidates@[i].is_interpolated, any_controlled(candidates@)),
            None => DebugEntityLane::Confirmed,
        },
        r.confirmed_ghost == if any_controlled(candidates@) {
            match root_primary_spec(candidates@) {
                Some(i) => confirmed_ghost_spec(candidates@[i]),
                None => None,
            }
        } else {
            None
        },
{
    let mut controlled = false;
    let mut k: usize = 0;
    while k < candidates.len()
        invariant
            k <= candidates@.len(),
            controlled == exists|i: int| 0 <= i < k && #[trigger] candidates@[i].is_controlled,
        decreases candidates.len() - k,
    {
        if candidates[k].is_controlled {
            controlled = true;
        }
        k = k + 1;
    }
    let (f1, f2, f3) = if controlled {
        (CopyFilter::Predicted, CopyFilter::ReplicatedNotInterpolated, CopyFilter::Interpolated)
    } else {
        (CopyFilter::Interpolated, CopyFilter::ReplicatedNotPredicted, CopyFilter::Predicted)
    };
    let mut primary = pick_best_candidate(candidates, f1);
    if primary.is_none() {
        primary = pick_best_candidate(candidates, f2);
    }
    if primary.is_none() {
        primary = pick_best_candidate(candidates, f3);
    }
    proof {
        lemma_best_root_prefix(candidates@, f1, candidates@.len() as int);
        lemma_best_root_prefix(candidates@, f2, candidates@.len() as int);
        lemma_best_root_prefix(candidates@, f3, candidates@.len() as int);
        assert(candidates@.take(candidates@.len() as int) =~= candidates@);
    }
    let primary_lane = match primary {
        Some(i) => candidate_primary_lane(&candidates[i], controlled),
        None => DebugEntityLane::Confirmed,
    };
    let confirmed_ghost = if controlled {
        match primary {
            Some(i) => build_confirmed_ghost_entity(&candidates[i]),
            None => None,
        }
    } else {
        None
    };
    ResolvedRootCandidates { primary, primary_lane, confirmed_ghost }
}

/// The lane in which a root GUID is drawn, when the overlay resolved it.
pub open spec fn lookup_lane(lanes: Seq<(u128, DebugEntityLane)>, guid: u128) -> Option<DebugEntityLane>
    decreases lanes.len(),
{
    if lanes.len() == 0 {
        None
    } else if lanes[0].0 == guid {
        Some(lanes[0].1)
    } else {
        lookup_lane(lanes.drop_first(), guid)
    }
}

/// The lane in which a root GUID is drawn, when the overlay resolved it.
pub fn find_root_lane(lanes: &Vec<(u128, DebugEntityLane)>, guid: u128) -> (r: Option<DebugEntityLane>)
    ensures
        r == lookup_lane(lanes@, guid),
{
    let ghost s = lanes@;
    let mut i: usize = 0;
    assert(s.subrange(0, s.len() as int) =~= s);
    while i < lanes.len()
        invariant
            s == lanes@,
            i <= s.len(),
            lookup_lane(s, guid) == lookup_lane(s.subrange(i as int, s.len() as int), guid),
        decreases lanes.len() - i,
    {
        let ghost rest = s.subrange(i as int, s.len() as int);
        assert(rest[0] == s[i as int]);
        assert(rest.drop_first() =~= s.subrange(i + 1, s.len() as int));
        let (g, lane) = lanes[i];
        if g == guid {
            return Some(lane);
        }
        i = i + 1;
    }
    None
}

/// The filter that matches the parent's lane: predicted, interpolated, or a plain replicated
/// copy for every other lane.
pub open spec fn parent_lane_filter(lane: DebugEntityLane) -> CopyFilter {
    match lane {
        DebugEntityLane::Predicted => CopyFilter::Predicted,
        DebugEntityLane::Interpolated => CopyFilter::Interpolated,
        _ => CopyFilter::ReplicatedOnly,
    }
}

/// The copy drawn for a mounted entity: the one in the lane of its root (confirmed when the
/// root's lane is unknown), else a predicted, an interpolated or a replicated copy.
pub open spec fn auxiliary_spec<P>(c: Seq<AuxiliaryDebugCandidate<P>>, lanes: Seq<(u128, DebugEntityLane)>) -> Option<int> {
    let parent_lane = if c.len() > 0 {
        match lookup_lane(lanes, c[0].parent_root_guid) {
            Some(l) => l,
            None => DebugEntityLane::Confirmed,
        }
    } else {
        DebugEntityLane::Confirmed
    };
    let a = best_aux(c, parent_lane_filter(parent_lane));
    if a is Some {
        a
    } else {
        first_of(
            best_aux(c, CopyFilter::Predicted),
            best_aux(c, CopyFilter::Interpolated),
            best_aux(c, CopyFilter::Replicated),
        )
    }
}

/// Chooses the copy drawn for a mounted entity (see `auxiliary_spec`).
pub fn resolve_auxiliary_candidate<P>(
    candidates: &Vec<AuxiliaryDebugCandidate<P>>,
    resolved_root_lanes: &Vec<(u128, DebugEntityLane)>,
) -> (r: Option<usize>)
    ensures
        match auxiliary_spec(candidates@, resolved_root_lanes@) {
            Some(i) => r == Some(i as usize),
            None => r is None,
        },
{
    let parent_lane = if candidates.len() > 0 {
        match find_root_lane(resolved_root_lanes, candidates[0].parent_root_guid) {
            Some(l) => l,
            None => DebugEntityLane::Confirmed,
        }
    } else {
        DebugEntityLane::Confirmed
    };
    let f = match parent_lane {
        DebugEntityLane::Predicted => CopyFilter::Predicted,
        DebugEntityLane::Interpolated => CopyFilter::Interpolated,
        _ => CopyFilter::ReplicatedOnly,
    };
    proof {
        lemma_best_aux_prefix(candidates@, f, candidates@.len() as int);
        lemma_best_aux_prefix(candidates@, CopyFilter::Predicted, candidates@.len() as int);
        lemma_best_aux_prefix(candidates@, CopyFilter::Interpolated, candidates@.len() as int);
        lemma_best_aux_prefix(candidates@, CopyFilter::Replicated, candidates@.len() as int);
        assert(candidates@.take(candidates@.len() as int) =~= candidates@);
    }
    let mut r = pick_best_auxiliary_candidate(candidates, f);
    if r.is_none() {
        r = pick_best_auxiliary_candidate(candidates, CopyFilter::Predicted);
    }
    if r.is_none() {
        r = pick_best_auxiliary_candidate(candidates, CopyFilter::Interpolated);
    }
    if r.is_none() {
        r = pick_best_auxiliary_candidate(candidates, CopyFilter::Replicated);
    }
    r
}

/// How many entities the overlay draws in each lane.
#[derive(Debug, Clone, Copy)]
pub struct DebugLaneCounts {
    pub predicted_count: u64,
    pub confirmed_count: u64,
    pub interpolated_count: u64,
    pub auxiliary_count: u64,
}

/// Counts one more drawn entity in its lane (a confirmed ghost counts as confirmed).
pub fn count_lane(counts: &mut DebugLaneCounts, lane: DebugEntityLane)
    requires
        old(counts).predicted_count < u64::MAX,
        old(counts).confirmed_count < u64::MAX,
        old(counts).interpolated_count < u64::MAX,
        old(counts).auxiliary_count < u64::MAX,
    ensures
        final(counts).predicted_count == old(counts).predicted_count + if lane == DebugEntityLane::Predicted { 1int } else { 0 },
        final(counts).confirmed_count == old(counts).confirmed_count + if lane == DebugEntityLane::Confirmed
            || lane == DebugEntityLane::ConfirmedGhost { 1int } else { 0 },
        final(counts).interpolated_count == old(counts).interpolated_count + if lane == DebugEntityLane::Interpolated { 1int } else { 0 },
        final(counts).auxiliary_count == old(counts).auxiliary_count + if lane == DebugEntityLane::Auxiliary { 1int } else { 0 },
{
    match lane {
        DebugEntityLane::Predicted => counts.predicted_count = counts.predicted_count + 1,
        DebugEntityLane::Confirmed | DebugEntityLane::ConfirmedGhost => counts.confirmed_count = counts.confirmed_count + 1,
        DebugEntityLane::Interpolated => counts.interpolated_count = counts.interpolated_count + 1,
        DebugEntityLane::Auxiliary => counts.auxiliary_count = counts.auxiliary_count + 1,
    }
}

/// The drawn copy is one of the candidates and passes the filter it was picked by, and no
/// candidate passing that filter has lower entity bits.
pub proof fn lemma_best_root_is_lowest<P>(c: Seq<RootDebugCandidate<P>>, f: CopyFilter)
    ensures
        best_root(c, f) matches Some(i) ==> 0 <= i < c.len() && passes(
            f,
            c[i].is_replicated,
            c[i].is_interpolated,
            c[i].is_predicted,
        ) && forall|j: int| 0 <= j < c.len() && passes(f, c[j].is_replicated, c[j].is_interpolated, c[j].is_predicted)
            ==> c[i].entity_bits <= #[trigger] c[j].entity_bits,
        best_root(c, f) is None ==> forall|j: int| 0 <= j < c.len() ==> !passes(
            f,
            #[trigger] c[j].is_replicated,
            c[j].is_interpolated,
            c[j].is_predicted,
        ),
    decreases c.len(),
{
    if c.len() > 0 {
        let p = c.drop_last();
        lemma_best_root_is_lowest(p, f);
        let n = c.len() - 1;
        assert forall|j: int| 0 <= j < n implies #[trigger] c[j] == p[j] by {}
        if let Some(i) = best_root(c, f) {
            assert forall|j: int| 0 <= j < c.len() && passes(f, c[j].is_replicated, c[j].is_interpolated, c[j].is_predicted)
                implies c[i].entity_bits <= #[trigger] c[j].entity_bits by {
                if j < n {
                    assert(c[j] == p[j]);
                    assert(best_root(p, f) is Some);
                    let ip = best_root(p, f).unwrap();
                    assert(p[ip].entity_bits <= p[j].entity_bits);
                    assert(c[ip] == p[ip]);
                }
            }
            if i < n {
                assert(c[i] == p[i]);
            }
        }
        if best_root(c, f) is None {
            assert forall|j: int| 0 <= j < c.len() implies !passes(
                f,
                #[trigger] c[j].is_replicated,
                c[j].is_interpolated,
                c[j].is_predicted,
            ) by {
                if j < n {
                    assert(c[j] == p[j]);
                }
            }
        }
    }
}

} // verus!
