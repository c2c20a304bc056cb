//! The debug overlay's snapshot of a frame: which copy of each entity is drawn and in which
//! lane, the anomalies seen, and the text rows shown beside the overlay.

use vstd::prelude::*;
use crate::assets::str_views;
use crate::control::ov;
use crate::debug_lanes::{
    AuxiliaryDebugCandidate, ConfirmedGhost, ConfirmedGhostPose, CopyFilter, DebugEntityLane, RootDebugCandidate, any_controlled,
    best_aux, lemma_best_root_is_lowest,
    auxiliary_spec, confirmed_ghost_spec, find_root_lane, lookup_lane, primary_lane_spec, resolve_auxiliary_candidate,
    resolve_root_candidates, root_primary_spec,
};
use crate::guid::{uuid_display, uuid_to_string};
use crate::numparse::{decimal_text, format_decimal};
use crate::text::concat_str;

verus! {

/// How a text row is shown.
#[derive(Debug, Clone, Copy, PartialEq, Eq, Structural)]
pub enum DebugSeverity {
    Normal,
    Warn,
    Error,
}

/// One row of the overlay's text.
#[derive(Debug)]
pub struct DebugTextRow {
    pub label: String,
    pub value: String,
    pub severity: DebugSeverity,
}

/// A row as plain values.
pub open spec fn row_view(r: DebugTextRow) -> (Seq<char>, Seq<char>, DebugSeverity) {
    (r.label@, r.value@, r.severity)
}

/// The lane of the controlled entity.
#[derive(Debug, Clone, Copy)]
pub struct DebugControlledLane {
    pub guid: u128,
    pub primary_lane: DebugEntityLane,
    pub has_confirmed_ghost: bool,
}

/// The counts the overlay reports.
#[derive(Debug, Clone, Copy)]
pub struct DebugOverlayStats {
    pub predicted_count: usize,
    pub confirmed_count: usize,
    pub interpolated_count: usize,
    pub auxiliary_count: usize,
    pub duplicate_guid_groups: usize,
    pub anomaly_count: usize,
}

/// `s` right-aligned in four columns, as `{:>4}` writes it.
pub open spec fn pad4(s: Seq<char>) -> Seq<char> {
    if s.len() < 4 {
        Seq::new((4 - s.len()) as nat, |i: int| ' ') + s
    } else {
        s
    }
}

/// A count as the overlay writes it.
pub open spec fn count_text(n: usize) -> Seq<char> {
    pad4(decimal_text(n as nat))
}

/// The name of a lane, as its `Debug` impl writes it.
pub open spec fn lane_name(l: DebugEntityLane) -> Seq<char> {
    match l {
        DebugEntityLane::Predicted => "Predicted"@,
        DebugEntityLane::Confirmed => "Confirmed"@,
        DebugEntityLane::ConfirmedGhost => "ConfirmedGhost"@,
        DebugEntityLane::Interpolated => "Interpolated"@,
        DebugEntityLane::Auxiliary => "Auxiliary"@,
    }
}

/// `Warn` when something is there, else `Normal`.
pub open spec fn warn_if(b: bool) -> DebugSeverity {
    if b { DebugSeverity::Warn } else { DebugSeverity::Normal }
}

/// The overlay's text rows: the lane counts, duplicate GUID groups and anomalies; the
/// controlled entity's lane, GUID and whether it has a confirmed ghost; and the first anomaly.
pub open spec fn debug_text_rows_spec(
    stats: DebugOverlayStats,
    controlled_lane: Option<DebugControlledLane>,
    anomalies: Seq<Seq<char>>,
) -> Seq<(Seq<char>, Seq<char>, DebugSeverity)> {
    let base = seq![
        ("Predicted"@, count_text(stats.predicted_count), DebugSeverity::Normal),
        ("Confirmed"@, count_text(stats.confirmed_count), DebugSeverity::Normal),
        ("Interpolated"@, count_text(stats.interpolated_count), DebugSeverity::Normal),
        ("Duplicate GUIDs"@, count_text(stats.duplicate_guid_groups), warn_if(stats.duplicate_guid_groups > 0)),
        ("Anomalies"@, count_text(stats.anomaly_count), warn_if(stats.anomaly_count > 0)),
    ];
    let with_control = match controlled_lane {
        Some(c) => base + seq![
            ("Control Lane"@, lane_name(c.primary_lane), warn_if(c.primary_lane != DebugEntityLane::Predicted)),
            ("Control GUID"@, uuid_display(c.guid), DebugSeverity::Normal),
            ("Confirmed Ghost"@, yes_no_text(c.has_confirmed_ghost), warn_if(!c.has_confirmed_ghost)),
        ],
        None => base,
    };
    if anomalies.len() > 0 {
        with_control.push(("Alert"@, anomalies[0], DebugSeverity::Error))
    } else {
        with_control
    }
}

/// `yes` or `no`.
pub open spec fn yes_no_text(b: bool) -> Seq<char> {
    if b { "yes"@ } else { "no"@ }
}

/// A count right-aligned in four columns.
fn count_string(n: usize) -> (r: String)
    ensures
        r@ == count_text(n),
{
    let digits = format_decimal(n as u64);
    let len = digits.unicode_len();
    if len >= 4 {
        return digits;
    }
    let mut pad = String::new();
    let mut k: usize = 0;
    while k < 4 - len
        invariant
            len < 4,
            k <= 4 - len,
            pad@ == Seq::new(k as nat, |i: int| ' '),
        decreases 4 - len - k,
    {
        proof {
            reveal_strlit(" ");
        }
        pad.append(" ");
        k = k + 1;
        assert(pad@ =~= Seq::new(k as nat, |i: int| ' '));
    }
    concat_str(pad.as_str(), digits.as_str())
}

fn lane_string(l: DebugEntityLane) -> (r: &'static str)
    ensures
        r@ == lane_name(l),
{
    match l {
        DebugEntityLane::Predicted => "Predicted",
        DebugEntityLane::Confirmed => "Confirmed",
        DebugEntityLane::ConfirmedGhost => "ConfirmedGhost",
        DebugEntityLane::Interpolated => "Interpolated",
        DebugEntityLane::Auxiliary => "Auxiliary",
    }
}

fn push_row(rows: &mut Vec<DebugTextRow>, label: &str, value: String, severity: DebugSeverity)
    ensures
        final(rows)@.map_values(|r: DebugTextRow| row_view(r)) == old(rows)@.map_values(|r: DebugTextRow| row_view(r)).push(
            (label@, value@, severity),
        ),
{
    let ghost before = rows@;
    rows.push(DebugTextRow { label: label.to_string(), value, severity });
    assert(rows@.map_values(|r: DebugTextRow| row_view(r)) =~= before.map_values(|r: DebugTextRow| row_view(r)).push(
        (label@, value@, severity),
    ));
}

/// Builds the overlay's text rows (see `debug_text_rows_spec`).
pub fn build_debug_text_rows(
    stats: &DebugOverlayStats,
    controlled_lane: Option<DebugControlledLane>,
    anomalies: &Vec<String>,
) -> (rows: Vec<DebugTextRow>)
    ensures
        rows@.map_values(|r: DebugTextRow| row_view(r)) == debug_text_rows_spec(
            *stats,
            controlled_lane,
            anomalies@.map_values(|a: String| a@),
        ),
{
    let mut rows: Vec<DebugTextRow> = Vec::new();
    push_row(&mut rows, "Predicted", count_string(stats.predicted_count), DebugSeverity::Normal);
    push_row(&mut rows, "Confirmed", count_string(stats.confirmed_count), DebugSeverity::Normal);
    push_row(&mut rows, "Interpolated", count_string(stats.interpolated_count), DebugSeverity::Normal);
    push_row(
        &mut rows,
        "Duplicate GUIDs",
        count_string(stats.duplicate_guid_groups),
        if stats.duplicate_guid_groups > 0 { DebugSeverity::Warn } else { DebugSeverity::Normal },
    );
    push_row(
        &mut rows,
        "Anomalies",
        count_string(stats.anomaly_count),
        if stats.anomaly_count > 0 { DebugSeverity::Warn } else { DebugSeverity::Normal },
    );
    match controlled_lane {
        Some(c) => {
            let sev = match c.primary_lane {
                DebugEntityLane::Predicted => DebugSeverity::Normal,
                _ => DebugSeverity::Warn,
            };
            push_row(&mut rows, "Control Lane", lane_string(c.primary_lane).to_string(), sev);
            push_row(&mut rows, "Control GUID", uuid_to_string(c.guid), DebugSeverity::Normal);
            if c.has_confirmed_ghost {
                push_row(&mut rows, "Confirmed Ghost", "yes".to_string(), DebugSeverity::Normal);
            } else {
                push_row(&mut rows, "Confirmed Ghost", "no".to_string(), DebugSeverity::Warn);
            }
        },
        None => {},
    }
    if anomalies.len() > 0 {
        push_row(&mut rows, "Alert", anomalies[0].clone(), DebugSeverity::Error);
    }
    assert(rows@.map_values(|r: DebugTextRow| row_view(r)) =~= debug_text_rows_spec(
        *stats,
        controlled_lane,
        anomalies@.map_values(|a: String| a@),
    ));
    rows
}


/// What the overlay reads of one world entity. `P` is its pose, carried through untouched.
#[derive(Debug)]
pub struct DebugOverlayEntityView<P> {
    pub entity_bits: u64,
    /// How the entity is named in messages.
    pub entity_label: String,
    pub guid: u128,
    pub pose: P,
    /// The confirmed pose, when both a confirmed position and rotation are present.
    pub confirmed_pose: Option<P>,
    /// The root an entity is mounted on.
    pub mounted_on_parent: Option<u128>,
    pub has_hardpoint: bool,
    pub parent_guid: Option<u128>,
    pub has_player_tag: bool,
    /// The player named by the entity's controlled marker, when it has one.
    pub controlled_by_player_entity_id: Option<String>,
    pub is_replicated: bool,
    pub is_interpolated: bool,
    pub is_predicted: bool,
    pub is_suppressed_duplicate: bool,
}

/// Where an entity is drawn: its current pose, the last confirmed one, or its current pose at
/// rest.
#[derive(Debug, Clone, Copy)]
pub enum DebugEntityPose<P> {
    Current(P),
    Confirmed(P),
    AtRest(P),
}

/// An entity drawn by the overlay.
#[derive(Debug, Clone, Copy)]
pub struct DebugOverlayEntity<P> {
    pub entity_bits: u64,
    pub lane: DebugEntityLane,
    pub pose: DebugEntityPose<P>,
    pub is_controlled: bool,
}

/// The overlay's snapshot of a frame.
#[derive(Debug)]
pub struct DebugOverlaySnapshot<P> {
    pub frame_index: u64,
    pub entities: Vec<DebugOverlayEntity<P>>,
    pub controlled_lane: Option<DebugControlledLane>,
    pub stats: DebugOverlayStats,
    pub anomalies: Vec<String>,
    pub text_rows: Vec<DebugTextRow>,
}

/// Player entities and suppressed duplicates are not drawn.
pub open spec fn included<P>(v: DebugOverlayEntityView<P>) -> bool {
    !v.has_player_tag && !v.is_suppressed_duplicate
}

/// The root an entity hangs from: the one it is mounted on, else its parent.
pub open spec fn parent_root<P>(v: DebugOverlayEntityView<P>) -> Option<u128> {
    match v.mounted_on_parent {
        Some(p) => Some(p),
        None => v.parent_guid,
    }
}

/// A drawn entity without a root above it.
pub open spec fn is_root_view<P>(v: DebugOverlayEntityView<P>) -> bool {
    included(v) && parent_root(v) is None
}

/// Whether an entity is the locally controlled one: with a control GUID, the unmounted entity
/// with that GUID; without one, the entity whose controlled marker names the session's player.
pub open spec fn local_controlled<P>(v: DebugOverlayEntityView<P>, ctl: Option<u128>, pid: Option<Seq<char>>) -> bool {
    match ctl {
        Some(g) => v.mounted_on_parent is None && !v.has_hardpoint && v.guid == g,
        None => match (v.controlled_by_player_entity_id, pid) {
            (Some(c), Some(p)) => c@ == p,
            _ => false,
        },
    }
}

/// The root candidate of an entity.
pub open spec fn root_candidate<P>(v: DebugOverlayEntityView<P>, controlled: bool) -> RootDebugCandidate<P> {
    RootDebugCandidate {
        entity_bits: v.entity_bits,
        is_controlled: controlled,
        is_replicated: v.is_replicated,
        is_interpolated: v.is_interpolated,
        is_predicted: v.is_predicted,
        has_confirmed_wrappers: v.confirmed_pose is Some,
        confirmed_pose: v.confirmed_pose,
        pose: v.pose,
    }
}

/// The anomalies one drawn entity shows.
pub open spec fn view_anomalies<P>(v: DebugOverlayEntityView<P>, controlled: bool) -> Seq<Seq<char>> {
    (if v.is_predicted && v.is_interpolated {
        seq!["entity "@ + v.entity_label@ + " ("@ + uuid_display(v.guid) + ") has both Predicted and Interpolated markers"@]
    } else {
        Seq::empty()
    }) + (if controlled && !v.is_predicted && (v.is_interpolated || v.is_replicated) {
        seq!["controlled guid "@ + uuid_display(v.guid) + " resolved without a Predicted root"@]
    } else {
        Seq::empty()
    }) + (if !controlled && v.is_predicted {
        seq!["remote guid "@ + uuid_display(v.guid) + " resolved as Predicted"@]
    } else {
        Seq::empty()
    })
}

/// The anomalies of the first `n` entities, in order.
pub open spec fn entity_anomalies<P>(views: Seq<DebugOverlayEntityView<P>>, ctl: Option<u128>, pid: Option<Seq<char>>, n: int) -> Seq<Seq<char>>
    decreases n,
{
    if n <= 0 || n > views.len() {
        Seq::empty()
    } else {
        let prev = entity_anomalies(views, ctl, pid, n - 1);
        let v = views[n - 1];
        if included(v) { prev + view_anomalies(v, local_controlled(v, ctl, pid)) } else { prev }
    }
}

/// The GUIDs of the root entities among the first `n`, each once, in order of appearance.
pub open spec fn root_guids<P>(views: Seq<DebugOverlayEntityView<P>>, n: int) -> Seq<u128>
    decreases n,
{
    if n <= 0 || n > views.len() {
        Seq::empty()
    } else {
        let prev = root_guids(views, n - 1);
        let v = views[n - 1];
        if is_root_view(v) && !prev.contains(v.guid) { prev.push(v.guid) } else { prev }
    }
}

/// The root candidates with GUID `g` among the first `n` entities, in order.
pub open spec fn group_cands<P>(
    views: Seq<DebugOverlayEntityView<P>>,
    ctl: Option<u128>,
    pid: Option<Seq<char>>,
    g: u128,
    n: int,
) -> Seq<RootDebugCandidate<P>>
    decreases n,
{
    if n <= 0 || n > views.len() {
        Seq::empty()
    } else {
        let prev = group_cands(views, ctl, pid, g, n - 1);
        let v = views[n - 1];
        if is_root_view(v) && v.guid == g { prev.push(root_candidate(v, local_controlled(v, ctl, pid))) } else { prev }
    }
}

/// The entities drawn for a root GUID: the chosen copy in its lane, then, for the controlled
/// entity, its confirmed ghost.
pub open spec fn group_output<P>(c: Seq<RootDebugCandidate<P>>) -> Seq<DebugOverlayEntity<P>> {
    match root_primary_spec(c) {
        Some(i) => {
            let p = c[i];
            let first = seq![DebugOverlayEntity {
                entity_bits: p.entity_bits,
                lane: primary_lane_spec(p.is_predicted, p.is_interpolated, any_controlled(c)),
                pose: DebugEntityPose::Current(p.pose),
                is_controlled: p.is_controlled,
            }];
            if any_controlled(c) {
                match confirmed_ghost_spec(p) {
                    Some(gh) => first.push(ghost_entity(gh, p)),
                    None => first,
                }
            } else {
                first
            }
        },
        None => Seq::empty(),
    }
}

/// The confirmed ghost drawn beside the chosen copy `p`.
pub open spec fn ghost_entity<P>(gh: ConfirmedGhost<P>, p: RootDebugCandidate<P>) -> DebugOverlayEntity<P> {
    DebugOverlayEntity {
        entity_bits: gh.entity_bits,
        lane: DebugEntityLane::ConfirmedGhost,
        pose: match gh.pose {
            ConfirmedGhostPose::Confirmed(q) => DebugEntityPose::Confirmed(q),
            ConfirmedGhostPose::PrimaryAtRest => DebugEntityPose::AtRest(p.pose),
        },
        is_controlled: p.is_controlled,
    }
}

/// The candidates of the `k`-th root GUID.
pub open spec fn cands_of<P>(views: Seq<DebugOverlayEntityView<P>>, ctl: Option<u128>, pid: Option<Seq<char>>, guids: Seq<u128>, k: int) -> Seq<RootDebugCandidate<P>> {
    group_cands(views, ctl, pid, guids[k], views.len() as int)
}

/// The entities drawn for the first `n` root GUIDs.
pub open spec fn root_outputs<P>(views: Seq<DebugOverlayEntityView<P>>, ctl: Option<u128>, pid: Option<Seq<char>>, guids: Seq<u128>, n: int) -> Seq<DebugOverlayEntity<P>>
    decreases n,
{
    if n <= 0 {
        Seq::empty()
    } else {
        root_outputs(views, ctl, pid, guids, n - 1) + group_output(cands_of(views, ctl, pid, guids, n - 1))
    }
}

/// The lanes of the first `n` root GUIDs for which a copy is drawn.
pub open spec fn resolved_lanes<P>(views: Seq<DebugOverlayEntityView<P>>, ctl: Option<u128>, pid: Option<Seq<char>>, guids: Seq<u128>, n: int) -> Seq<(u128, DebugEntityLane)>
    decreases n,
{
    if n <= 0 {
        Seq::empty()
    } else {
        let prev = resolved_lanes(views, ctl, pid, guids, n - 1);
        let c = cands_of(views, ctl, pid, guids, n - 1);
        match root_primary_spec(c) {
            Some(i) => prev.push((guids[n - 1], primary_lane_spec(c[i].is_predicted, c[i].is_interpolated, any_controlled(c)))),
            None => prev,
        }
    }
}

/// The controlled entity's lane: that of the last of the first `n` root GUIDs whose drawn copy
/// is controlled.
pub open spec fn controlled_lane_of<P>(views: Seq<DebugOverlayEntityView<P>>, ctl: Option<u128>, pid: Option<Seq<char>>, guids: Seq<u128>, n: int) -> Option<DebugControlledLane>
    decreases n,
{
    if n <= 0 {
        None
    } else {
        let prev = controlled_lane_of(views, ctl, pid, guids, n - 1);
        let c = cands_of(views, ctl, pid, guids, n - 1);
        match root_primary_spec(c) {
            Some(i) => if c[i].is_controlled {
                Some(DebugControlledLane {
                    guid: guids[n - 1],
                    primary_lane: primary_lane_spec(c[i].is_predicted, c[i].is_interpolated, any_controlled(c)),
                    has_confirmed_ghost: any_controlled(c) && confirmed_ghost_spec(c[i]) is Some,
                })
            } else {
                prev
            },
            None => prev,
        }
    }
}

/// How many candidates are predicted, interpolated, and replicated only.
pub open spec fn marker_counts<P>(c: Seq<RootDebugCandidate<P>>) -> (nat, nat, nat)
    decreases c.len(),
{
    if c.len() == 0 {
        (0, 0, 0)
    } else {
        let (p, i, r) = marker_counts(c.drop_last());
        let x = c.last();
        (
            p + if x.is_predicted { 1nat } else { 0nat },
            i + if x.is_interpolated { 1nat } else { 0nat },
            r + if x.is_replicated && !x.is_predicted && !x.is_interpolated { 1nat } else { 0nat },
        )
    }
}

/// The anomaly of a root GUID with several copies, more than one of them in some lane.
pub open spec fn group_anomaly<P>(g: u128, c: Seq<RootDebugCandidate<P>>) -> Seq<Seq<char>> {
    let (p, i, r) = marker_counts(c);
    if c.len() > 1 && (p > 1 || i > 1 || r > 1) {
        seq!["guid "@ + uuid_display(g) + " has duplicate lane winners p="@ + decimal_text(p) + " i="@ + decimal_text(i)
            + " c="@ + decimal_text(r)]
    } else {
        Seq::empty()
    }
}

/// The anomalies of the first `n` root GUIDs.
pub open spec fn group_anomalies<P>(views: Seq<DebugOverlayEntityView<P>>, ctl: Option<u128>, pid: Option<Seq<char>>, guids: Seq<u128>, n: int) -> Seq<Seq<char>>
    decreases n,
{
    if n <= 0 {
        Seq::empty()
    } else {
        group_anomalies(views, ctl, pid, guids, n - 1) + group_anomaly(guids[n - 1], cands_of(views, ctl, pid, guids, n - 1))
    }
}

/// How many of the first `n` root GUIDs have more than one copy.
pub open spec fn duplicate_groups<P>(views: Seq<DebugOverlayEntityView<P>>, ctl: Option<u128>, pid: Option<Seq<char>>, guids: Seq<u128>, n: int) -> nat
    decreases n,
{
    if n <= 0 {
        0
    } else {
        duplicate_groups(views, ctl, pid, guids, n - 1) + if cands_of(views, ctl, pid, guids, n - 1).len() > 1 { 1nat } else { 0nat }
    }
}

/// A drawn mounted entity whose root is drawn.
pub open spec fn is_aux_view<P>(v: DebugOverlayEntityView<P>, lanes: Seq<(u128, DebugEntityLane)>) -> bool {
    included(v) && (parent_root(v) matches Some(r) && lookup_lane(lanes, r) is Some)
}

/// The GUIDs of such mounted entities among the first `n`, each once, in order of appearance.
pub open spec fn aux_guids<P>(views: Seq<DebugOverlayEntityView<P>>, lanes: Seq<(u128, DebugEntityLane)>, n: int) -> Seq<u128>
    decreases n,
{
    if n <= 0 || n > views.len() {
        Seq::empty()
    } else {
        let prev = aux_guids(views, lanes, n - 1);
        let v = views[n - 1];
        if is_aux_view(v, lanes) && !prev.contains(v.guid) { prev.push(v.guid) } else { prev }
    }
}

/// The auxiliary candidate of a mounted entity.
pub open spec fn aux_candidate<P>(v: DebugOverlayEntityView<P>) -> AuxiliaryDebugCandidate<P> {
    AuxiliaryDebugCandidate {
        entity_bits: v.entity_bits,
        guid: v.guid,
        parent_root_guid: match parent_root(v) { Some(r) => r, None => 0 },
        is_replicated: v.is_replicated,
        is_interpolated: v.is_interpolated,
        is_predicted: v.is_predicted,
        pose: v.pose,
    }
}

/// The mounted copies with GUID `g` among the first `n` entities, each with whether it is the
/// controlled one, in order.
pub open spec fn aux_group<P>(
    views: Seq<DebugOverlayEntityView<P>>,
    ctl: Option<u128>,
    pid: Option<Seq<char>>,
    lanes: Seq<(u128, DebugEntityLane)>,
    g: u128,
    n: int,
) -> Seq<(AuxiliaryDebugCandidate<P>, bool)>
    decreases n,
{
    if n <= 0 || n > views.len() {
        Seq::empty()
    } else {
        let prev = aux_group(views, ctl, pid, lanes, g, n - 1);
        let v = views[n - 1];
        if is_aux_view(v, lanes) && v.guid == g { prev.push((aux_candidate(v), local_controlled(v, ctl, pid))) } else { prev }
    }
}

/// The entity drawn for a mounted GUID.
pub open spec fn aux_output<P>(grp: Seq<(AuxiliaryDebugCandidate<P>, bool)>, lanes: Seq<(u128, DebugEntityLane)>) -> Seq<DebugOverlayEntity<P>> {
    let c = grp.map_values(|x: (AuxiliaryDebugCandidate<P>, bool)| x.0);
    match auxiliary_spec(c, lanes) {
        Some(i) => seq![DebugOverlayEntity {
            entity_bits: c[i].entity_bits,
            lane: DebugEntityLane::Auxiliary,
            pose: DebugEntityPose::Current(c[i].pose),
            is_controlled: grp[i].1,
        }],
        None => Seq::empty(),
    }
}

/// The entities drawn for the first `n` mounted GUIDs.
pub open spec fn aux_outputs<P>(
    views: Seq<DebugOverlayEntityView<P>>,
    ctl: Option<u128>,
    pid: Option<Seq<char>>,
    lanes: Seq<(u128, DebugEntityLane)>,
    aguids: Seq<u128>,
    n: int,
) -> Seq<DebugOverlayEntity<P>>
    decreases n,
{
    if n <= 0 {
        Seq::empty()
    } else {
        aux_outputs(views, ctl, pid, lanes, aguids, n - 1) + aux_output(
            aux_group(views, ctl, pid, lanes, aguids[n - 1], views.len() as int),
            lanes,
        )
    }
}

/// How many entities are drawn in lane `l`.
pub open spec fn lane_count<P>(e: Seq<DebugOverlayEntity<P>>, l: DebugEntityLane) -> nat
    decreases e.len(),
{
    if e.len() == 0 {
        0
    } else {
        lane_count(e.drop_last(), l) + if e.last().lane == l { 1nat } else { 0nat }
    }
}


/// A picked mounted copy is one of the candidates.
proof fn lemma_best_aux_in_range<P>(c: Seq<AuxiliaryDebugCandidate<P>>, f: CopyFilter)
    ensures
        best_aux(c, f) matches Some(i) ==> 0 <= i < c.len(),
    decreases c.len(),
{
    if c.len() > 0 {
        lemma_best_aux_in_range(c.drop_last(), f);
    }
}

/// The copy drawn for a root GUID is one of its candidates.
proof fn lemma_root_primary_in_range<P>(c: Seq<RootDebugCandidate<P>>)
    ensures
        root_primary_spec(c) matches Some(i) ==> 0 <= i < c.len(),
{
    lemma_best_root_is_lowest(c, CopyFilter::Predicted);
    lemma_best_root_is_lowest(c, CopyFilter::Interpolated);
    lemma_best_root_is_lowest(c, CopyFilter::ReplicatedNotInterpolated);
    lemma_best_root_is_lowest(c, CopyFilter::ReplicatedNotPredicted);
}

/// The copy drawn for a mounted GUID is one of its candidates.
proof fn lemma_auxiliary_in_range<P>(c: Seq<AuxiliaryDebugCandidate<P>>, lanes: Seq<(u128, DebugEntityLane)>)
    ensures
        auxiliary_spec(c, lanes) matches Some(i) ==> 0 <= i < c.len(),
{
    lemma_best_aux_in_range(c, CopyFilter::Predicted);
    lemma_best_aux_in_range(c, CopyFilter::Interpolated);
    lemma_best_aux_in_range(c, CopyFilter::Replicated);
    lemma_best_aux_in_range(c, CopyFilter::ReplicatedNotInterpolated);
    lemma_best_aux_in_range(c, CopyFilter::ReplicatedNotPredicted);
    lemma_best_aux_in_range(c, CopyFilter::ReplicatedOnly);
}

fn is_local_controlled<P>(v: &DebugOverlayEntityView<P>, ctl: Option<u128>, pid: &Option<String>) -> (r: bool)
    ensures
        r == local_controlled(*v, ctl, ov(*pid)),
{
    match ctl {
        Some(g) => v.mounted_on_parent.is_none() && !v.has_hardpoint && v.guid == g,
        None => match &v.controlled_by_player_entity_id {
            Some(c) => match pid {
                Some(p) => *c == *p,
                None => false,
            },
            None => false,
        },
    }
}

fn root_candidate_of<P: Copy>(v: &DebugOverlayEntityView<P>, controlled: bool) -> (r: RootDebugCandidate<P>)
    ensures
        r == root_candidate(*v, controlled),
{
    RootDebugCandidate {
        entity_bits: v.entity_bits,
        is_controlled: controlled,
        is_replicated: v.is_replicated,
        is_interpolated: v.is_interpolated,
        is_predicted: v.is_predicted,
        has_confirmed_wrappers: v.confirmed_pose.is_some(),
        confirmed_pose: v.confirmed_pose,
        pose: v.pose,
    }
}

fn push_text(out: &mut Vec<String>, t: String)
    ensures
        str_views(final(out)@) == str_views(old(out)@).push(t@),
{
    let ghost before = out@;
    out.push(t);
    assert(str_views(out@) =~= str_views(before).push(t@));
}

fn push_view_anomalies<P>(anomalies: &mut Vec<String>, v: &DebugOverlayEntityView<P>, controlled: bool)
    ensures
        str_views(final(anomalies)@) == str_views(old(anomalies)@) + view_anomalies(*v, controlled),
{
    let ghost start = str_views(anomalies@);
    let guid = uuid_to_string(v.guid);
    if v.is_predicted && v.is_interpolated {
        let m0 = concat_str("entity ", v.entity_label.as_str());
        let m1 = concat_str(m0.as_str(), " (");
        let m2 = concat_str(m1.as_str(), guid.as_str());
        let m3 = concat_str(m2.as_str(), ") has both Predicted and Interpolated markers");
        push_text(anomalies, m3);
    }
    let ghost mid1 = str_views(anomalies@);
    if controlled && !v.is_predicted && (v.is_interpolated || v.is_replicated) {
        let m0 = concat_str("controlled guid ", guid.as_str());
        let m1 = concat_str(m0.as_str(), " resolved without a Predicted root");
        push_text(anomalies, m1);
    }
    let ghost mid2 = str_views(anomalies@);
    if !controlled && v.is_predicted {
        let m0 = concat_str("remote guid ", guid.as_str());
        let m1 = concat_str(m0.as_str(), " resolved as Predicted");
        push_text(anomalies, m1);
    }
    assert(str_views(anomalies@) =~= start + view_anomalies(*v, controlled));
}

fn contains_guid(guids: &Vec<u128>, g: u128) -> (r: bool)
    ensures
        r == guids@.contains(g),
{
    let mut i: usize = 0;
    while i < guids.len()
        invariant
            i <= guids@.len(),
            forall|j: int| 0 <= j < i ==> guids@[j] != g,
        decreases guids.len() - i,
    {
        if guids[i] == g {
            return true;
        }
        i = i + 1;
    }
    false
}

fn group_candidates<P: Copy>(
    views: &Vec<DebugOverlayEntityView<P>>,
    ctl: Option<u128>,
    pid: &Option<String>,
    g: u128,
) -> (r: Vec<RootDebugCandidate<P>>)
    ensures
        r@ == group_cands(views@, ctl, ov(*pid), g, views@.len() as int),
{
    let mut out: Vec<RootDebugCandidate<P>> = Vec::new();
    let mut k: usize = 0;
    while k < views.len()
        invariant
            k <= views@.len(),
            out@ == group_cands(views@, ctl, ov(*pid), g, k as int),
        decreases views.len() - k,
    {
        let v = &views[k];
        let is_root = !v.has_player_tag && !v.is_suppressed_duplicate && v.mounted_on_parent.is_none()
            && v.parent_guid.is_none();
        if is_root && v.guid == g {
            let lc = is_local_controlled(v, ctl, pid);
            out.push(root_candidate_of(v, lc));
        }
        k = k + 1;
    }
    out
}

fn marker_counts_of<P>(c: &Vec<RootDebugCandidate<P>>) -> (r: (usize, usize, usize))
    ensures
        (r.0 as nat, r.1 as nat, r.2 as nat) == marker_counts(c@),
{
    let mut p: usize = 0;
    let mut i: usize = 0;
    let mut q: usize = 0;
    let mut k: usize = 0;
    while k < c.len()
        invariant
            k <= c@.len(),
            p <= k && i <= k && q <= k,
            (p as nat, i as nat, q as nat) == marker_counts(c@.take(k as int)),
        decreases c.len() - k,
    {
        assert(c@.take(k + 1).drop_last() =~= c@.take(k as int));
        if c[k].is_predicted {
            p = p + 1;
        }
        if c[k].is_interpolated {
            i = i + 1;
        }
        if c[k].is_replicated && !c[k].is_predicted && !c[k].is_interpolated {
            q = q + 1;
        }
        k = k + 1;
    }
    assert(c@.take(k as int) =~= c@);
    (p, i, q)
}


fn aux_group_of<P: Copy>(
    views: &Vec<DebugOverlayEntityView<P>>,
    ctl: Option<u128>,
    pid: &Option<String>,
    lanes: &Vec<(u128, DebugEntityLane)>,
    g: u128,
) -> (r: (Vec<AuxiliaryDebugCandidate<P>>, Vec<bool>))
    ensures
        r.0@ == aux_group(views@, ctl, ov(*pid), lanes@, g, views@.len() as int).map_values(
            |x: (AuxiliaryDebugCandidate<P>, bool)| x.0,
        ),
        r.1@ == aux_group(views@, ctl, ov(*pid), lanes@, g, views@.len() as int).map_values(
            |x: (AuxiliaryDebugCandidate<P>, bool)| x.1,
        ),
{
    let mut cands: Vec<AuxiliaryDebugCandidate<P>> = Vec::new();
    let mut flags: Vec<bool> = Vec::new();
    let mut k: usize = 0;
    while k < views.len()
        invariant
            k <= views@.len(),
            cands@ == aux_group(views@, ctl, ov(*pid), lanes@, g, k as int).map_values(
                |x: (AuxiliaryDebugCandidate<P>, bool)| x.0,
            ),
            flags@ == aux_group(views@, ctl, ov(*pid), lanes@, g, k as int).map_values(
                |x: (AuxiliaryDebugCandidate<P>, bool)| x.1,
            ),
        decreases views.len() - k,
    {
        let v = &views[k];
        let ghost grp = aux_group(views@, ctl, ov(*pid), lanes@, g, k as int);
        let parent = match v.mounted_on_parent {
            Some(m) => Some(m),
            None => v.parent_guid,
        };
        let aux = !v.has_player_tag && !v.is_suppressed_duplicate && match parent {
            Some(r) => find_root_lane(lanes, r).is_some(),
            None => false,
        };
        if aux && v.guid == g {
            let lc = is_local_controlled(v, ctl, pid);
            let c = AuxiliaryDebugCandidate {
                entity_bits: v.entity_bits,
                guid: v.guid,
                parent_root_guid: match parent {
                    Some(r) => r,
                    None => 0,
                },
                is_replicated: v.is_replicated,
                is_interpolated: v.is_interpolated,
                is_predicted: v.is_predicted,
                pose: v.pose,
            };
            cands.push(c);
            flags.push(lc);
            proof {
                let ng = grp.push((aux_candidate(views@[k as int]), lc));
                assert(aux_group(views@, ctl, ov(*pid), lanes@, g, k + 1) == ng);
                assert(cands@ =~= ng.map_values(|x: (AuxiliaryDebugCandidate<P>, bool)| x.0));
                assert(flags@ =~= ng.map_values(|x: (AuxiliaryDebugCandidate<P>, bool)| x.1));
            }
        }
        k = k + 1;
    }
    (cands, flags)
}

fn push_group_anomaly<P>(anomalies: &mut Vec<String>, g: u128, c: &Vec<RootDebugCandidate<P>>)
    ensures
        str_views(final(anomalies)@) == str_views(old(anomalies)@) + group_anomaly(g, c@),
{
    let (p, i, q) = marker_counts_of(c);
    if c.len() > 1 && (p > 1 || i > 1 || q > 1) {
        let guid = uuid_to_string(g);
        let m0 = concat_str("guid ", guid.as_str());
        let m1 = concat_str(m0.as_str(), " has duplicate lane winners p=");
        let ps = format_decimal(p as u64);
        let m2 = concat_str(m1.as_str(), ps.as_str());
        let m3 = concat_str(m2.as_str(), " i=");
        let is = format_decimal(i as u64);
        let m4 = concat_str(m3.as_str(), is.as_str());
        let m5 = concat_str(m4.as_str(), " c=");
        let qs = format_decimal(q as u64);
        let m6 = concat_str(m5.as_str(), qs.as_str());
        let ghost before = str_views(anomalies@);
        push_text(anomalies, m6);
        assert(str_views(anomalies@) =~= before + group_anomaly(g, c@));
    } else {
        assert(str_views(anomalies@) =~= str_views(anomalies@) + group_anomaly(g, c@));
    }
}

fn push_entity<P>(out: &mut Vec<DebugOverlayEntity<P>>, e: DebugOverlayEntity<P>)
    ensures
        final(out)@ == old(out)@.push(e),
{
    out.push(e);
}

fn count_lanes<P>(e: &Vec<DebugOverlayEntity<P>>) -> (r: (usize, usize, usize, usize, usize))
    ensures
        r.0 == lane_count(e@, DebugEntityLane::Predicted),
        r.1 == lane_count(e@, DebugEntityLane::Confirmed),
        r.2 == lane_count(e@, DebugEntityLane::ConfirmedGhost),
        r.3 == lane_count(e@, DebugEntityLane::Interpolated),
        r.4 == lane_count(e@, DebugEntityLane::Auxiliary),
        r.0 + r.1 + r.2 + r.3 + r.4 == e@.len(),
{
    let mut c: (usize, usize, usize, usize, usize) = (0, 0, 0, 0, 0);
    let mut k: usize = 0;
    while k < e.len()
        invariant
            k <= e@.len(),
            c.0 + c.1 + c.2 + c.3 + c.4 == k,
            c.0 == lane_count(e@.take(k as int), DebugEntityLane::Predicted),
            c.1 == lane_count(e@.take(k as int), DebugEntityLane::Confirmed),
            c.2 == lane_count(e@.take(k as int), DebugEntityLane::ConfirmedGhost),
            c.3 == lane_count(e@.take(k as int), DebugEntityLane::Interpolated),
            c.4 == lane_count(e@.take(k as int), DebugEntityLane::Auxiliary),
        decreases e.len() - k,
    {
        assert(e@.take(k + 1).drop_last() =~= e@.take(k as int));
        match e[k].lane {
            DebugEntityLane::Predicted => c.0 = c.0 + 1,
            DebugEntityLane::Confirmed => c.1 = c.1 + 1,
            DebugEntityLane::ConfirmedGhost => c.2 = c.2 + 1,
            DebugEntityLane::Interpolated => c.3 = c.3 + 1,
            DebugEntityLane::Auxiliary => c.4 = c.4 + 1,
        }
        k = k + 1;
    }
    assert(e@.take(k as int) =~= e@);
    c
}


/// All counts zero.
pub open spec fn zero_stats() -> DebugOverlayStats {
    DebugOverlayStats {
        predicted_count: 0,
        confirmed_count: 0,
        interpolated_count: 0,
        auxiliary_count: 0,
        duplicate_guid_groups: 0,
        anomaly_count: 0,
    }
}

/// Takes the overlay's snapshot of a frame. The frame index advances (stopping at the largest
/// `u64`); with the overlay off the snapshot is otherwise empty. With it on, player entities
/// and suppressed duplicates are skipped; the others are root entities, grouped by GUID (in
/// order of appearance), or mounted entities. Each root GUID draws the copy
/// `resolve_root_candidates` chooses, in its lane, and the controlled one also its confirmed
/// ghost; then each mounted GUID whose root was drawn draws the copy
/// `resolve_auxiliary_candidate` chooses. The snapshot also holds the controlled entity's
/// lane, the anomalies (those of each entity, then those of GUIDs with several copies in one
/// lane), the counts per lane and of GUIDs with several copies, and the text rows.
/// `logical_control_guid` is the GUID of the controlled entity (or else of the player), when
/// one parses.
pub fn collect_debug_overlay_snapshot<P: Copy>(
    enabled: bool,
    frame_index: u64,
    logical_control_guid: Option<u128>,
    player_entity_id: &Option<String>,
    views: &Vec<DebugOverlayEntityView<P>>,
) -> (r: DebugOverlaySnapshot<P>)
    ensures
        r.frame_index == if frame_index == u64::MAX { frame_index } else { (frame_index + 1) as u64 },
        !enabled ==> {
            &&& r.entities@.len() == 0
            &&& r.text_rows@.len() == 0
            &&& r.anomalies@.len() == 0
            &&& r.controlled_lane is None
            &&& r.stats == zero_stats()
        },
        enabled ==> {
            let pid = ov(*player_entity_id);
            let ctl = logical_control_guid;
            let guids = root_guids(views@, views@.len() as int);
            let lanes = resolved_lanes(views@, ctl, pid, guids, guids.len() as int);
            let aguids = aux_guids(views@, lanes, views@.len() as int);
            &&& r.entities@ == root_outputs(views@, ctl, pid, guids, guids.len() as int) + aux_outputs(
                views@,
                ctl,
                pid,
                lanes,
                aguids,
                aguids.len() as int,
            )
            &&& r.controlled_lane == controlled_lane_of(views@, ctl, pid, guids, guids.len() as int)
            &&& str_views(r.anomalies@) == entity_anomalies(views@, ctl, pid, views@.len() as int) + group_anomalies(
                views@,
                ctl,
                pid,
                guids,
                guids.len() as int,
            )
            &&& r.stats.predicted_count == lane_count(r.entities@, DebugEntityLane::Predicted)
            &&& r.stats.confirmed_count == lane_count(r.entities@, DebugEntityLane::Confirmed) + lane_count(
                r.entities@,
                DebugEntityLane::ConfirmedGhost,
            )
            &&& r.stats.interpolated_count == lane_count(r.entities@, DebugEntityLane::Interpolated)
            &&& r.stats.auxiliary_count == lane_count(r.entities@, DebugEntityLane::Auxiliary)
            &&& r.stats.predicted_count + r.stats.confirmed_count + r.stats.interpolated_count + r.stats.auxiliary_count
                == r.entities@.len()
            &&& r.stats.duplicate_guid_groups == duplicate_groups(views@, ctl, pid, guids, guids.len() as int)
            &&& r.stats.anomaly_count == r.anomalies@.len()
            &&& r.text_rows@.map_values(|x: DebugTextRow| row_view(x)) == debug_text_rows_spec(
                r.stats,
                r.controlled_lane,
                str_views(r.anomalies@),
            )
        },
{
    let next_frame = frame_index.saturating_add(1);
    let stats0 = DebugOverlayStats {
        predicted_count: 0,
        confirmed_count: 0,
        interpolated_count: 0,
        auxiliary_count: 0,
        duplicate_guid_groups: 0,
        anomaly_count: 0,
    };
    if !enabled {
        return DebugOverlaySnapshot {
            frame_index: next_frame,
            entities: Vec::new(),
            controlled_lane: None,
            stats: stats0,
            anomalies: Vec::new(),
            text_rows: Vec::new(),
        };
    }
    let ctl = logical_control_guid;
    let ghost pid = ov(*player_entity_id);
    let mut anomalies: Vec<String> = Vec::new();
    let mut guids: Vec<u128> = Vec::new();
    let mut k: usize = 0;
    while k < views.len()
        invariant
            k <= views@.len(),
            pid == ov(*player_entity_id),
            str_views(anomalies@) == entity_anomalies(views@, ctl, pid, k as int),
            guids@ == root_guids(views@, k as int),
        decreases views.len() - k,
    {
        let v = &views[k];
        if !v.has_player_tag && !v.is_suppressed_duplicate {
            let lc = is_local_controlled(v, ctl, player_entity_id);
            push_view_anomalies(&mut anomalies, v, lc);
            if v.mounted_on_parent.is_none() && v.parent_guid.is_none() && !contains_guid(&guids, v.guid) {
                guids.push(v.guid);
            }
        }
        k = k + 1;
    }
    let ghost ea = str_views(anomalies@);
    let ghost g = guids@;
    let mut entities: Vec<DebugOverlayEntity<P>> = Vec::new();
    let mut lanes: Vec<(u128, DebugEntityLane)> = Vec::new();
    let mut controlled_lane: Option<DebugControlledLane> = None;
    let mut duplicates: usize = 0;
    let mut j: usize = 0;
    while j < guids.len()
        invariant
            g == guids@,
            g == root_guids(views@, views@.len() as int),
            pid == ov(*player_entity_id),
            j <= g.len(),
            duplicates <= j,
            entities@ == root_outputs(views@, ctl, pid, g, j as int),
            lanes@ == resolved_lanes(views@, ctl, pid, g, j as int),
            controlled_lane == controlled_lane_of(views@, ctl, pid, g, j as int),
            str_views(anomalies@) == ea + group_anomalies(views@, ctl, pid, g, j as int),
            duplicates == duplicate_groups(views@, ctl, pid, g, j as int),
        decreases g.len() - j,
    {
        let guid = guids[j];
        let cands = group_candidates(views, ctl, player_entity_id, guid);
        assert(cands@ == cands_of(views@, ctl, pid, g, j as int));
        if cands.len() > 1 {
            duplicates = duplicates + 1;
        }
        let ghost before_anoms = str_views(anomalies@);
        push_group_anomaly(&mut anomalies, guid, &cands);
        assert(str_views(anomalies@) =~= ea + group_anomalies(views@, ctl, pid, g, j + 1));
        let resolved = resolve_root_candidates(&cands);
        proof {
            lemma_root_primary_in_range(cands@);
        }
        let ghost before = entities@;
        match resolved.primary {
            Some(i) => {
                let p = &cands[i];
                push_entity(
                    &mut entities,
                    DebugOverlayEntity {
                        entity_bits: p.entity_bits,
                        lane: resolved.primary_lane,
                        pose: DebugEntityPose::Current(p.pose),
                        is_controlled: p.is_controlled,
                    },
                );
                match &resolved.confirmed_ghost {
                    Some(gh) => {
                        push_entity(
                            &mut entities,
                            DebugOverlayEntity {
                                entity_bits: gh.entity_bits,
                                lane: DebugEntityLane::ConfirmedGhost,
                                pose: match gh.pose {
                                    ConfirmedGhostPose::Confirmed(q) => DebugEntityPose::Confirmed(q),
                                    ConfirmedGhostPose::PrimaryAtRest => DebugEntityPose::AtRest(p.pose),
                                },
                                is_controlled: p.is_controlled,
                            },
                        );
                    },
                    None => {},
                }
                lanes.push((guid, resolved.primary_lane));
                if p.is_controlled {
                    controlled_lane = Some(
                        DebugControlledLane {
                            guid,
                            primary_lane: resolved.primary_lane,
                            has_confirmed_ghost: resolved.confirmed_ghost.is_some(),
                        },
                    );
                }
            },
            None => {},
        }
        assert(entities@ =~= before + group_output(cands@));
        j = j + 1;
    }
    let ghost ro = entities@;
    let ghost lv = lanes@;
    let mut aguids: Vec<u128> = Vec::new();
    let mut k: usize = 0;
    while k < views.len()
        invariant
            k <= views@.len(),
            lv == lanes@,
            aguids@ == aux_guids(views@, lv, k as int),
        decreases views.len() - k,
    {
        let v = &views[k];
        let parent = match v.mounted_on_parent {
            Some(m) => Some(m),
            None => v.parent_guid,
        };
        let aux = !v.has_player_tag && !v.is_suppressed_duplicate && match parent {
            Some(r) => find_root_lane(&lanes, r).is_some(),
            None => false,
        };
        if aux && !contains_guid(&aguids, v.guid) {
            aguids.push(v.guid);
        }
        k = k + 1;
    }
    let ghost ag = aguids@;
    let mut j: usize = 0;
    while j < aguids.len()
        invariant
            ag == aguids@,
            lv == lanes@,
            pid == ov(*player_entity_id),
            j <= ag.len(),
            entities@ == ro + aux_outputs(views@, ctl, pid, lv, ag, j as int),
        decreases ag.len() - j,
    {
        let (cands, flags) = aux_group_of(views, ctl, player_entity_id, &lanes, aguids[j]);
        let ghost grp = aux_group(views@, ctl, pid, lv, ag[j as int], views@.len() as int);
        let ghost before = entities@;
        proof {
            lemma_auxiliary_in_range(cands@, lanes@);
        }
        match resolve_auxiliary_candidate(&cands, &lanes) {
            Some(i) => {
                assert(flags@[i as int] == grp[i as int].1);
                push_entity(
                    &mut entities,
                    DebugOverlayEntity {
                        entity_bits: cands[i].entity_bits,
                        lane: DebugEntityLane::Auxiliary,
                        pose: DebugEntityPose::Current(cands[i].pose),
                        is_controlled: flags[i],
                    },
                );
            },
            None => {},
        }
        assert(entities@ =~= before + aux_output(grp, lv));
        j = j + 1;
    }
    let (np, nc, ng, ni, na) = count_lanes(&entities);
    assert(entities@.len() == entities.len());
    let stats = DebugOverlayStats {
        predicted_count: np,
        confirmed_count: nc + ng,
        interpolated_count: ni,
        auxiliary_count: na,
        duplicate_guid_groups: duplicates,
        anomaly_count: anomalies.len(),
    };
    let text_rows = build_debug_text_rows(&stats, controlled_lane, &anomalies);
    DebugOverlaySnapshot { frame_index: next_frame, entities, controlled_lane, stats, anomalies, text_rows }
}


/// Some drawn entity (neither a player entity nor a suppressed duplicate) has these bits.
pub open spec fn from_included<P>(views: Seq<DebugOverlayEntityView<P>>, bits: u64) -> bool {
    exists|k: int| 0 <= k < views.len() && included(#[trigger] views[k]) && views[k].entity_bits == bits
}

proof fn lemma_group_cands_included<P>(
    views: Seq<DebugOverlayEntityView<P>>,
    ctl: Option<u128>,
    pid: Option<Seq<char>>,
    g: u128,
    n: int,
)
    ensures
        forall|x: int| 0 <= x < group_cands(views, ctl, pid, g, n).len() ==> from_included(
            views,
            #[trigger] group_cands(views, ctl, pid, g, n)[x].entity_bits,
        ),
    decreases n,
{
    if n > 0 && n <= views.len() {
        lemma_group_cands_included(views, ctl, pid, g, n - 1);
        let prev = group_cands(views, ctl, pid, g, n - 1);
        let cur = group_cands(views, ctl, pid, g, n);
        assert forall|x: int| 0 <= x < cur.len() implies from_included(views, #[trigger] cur[x].entity_bits) by {
            if x < prev.len() {
                assert(cur[x] == prev[x]);
            } else {
                assert(included(views[n - 1]));
            }
        }
    }
}

proof fn lemma_root_outputs_included<P>(
    views: Seq<DebugOverlayEntityView<P>>,
    ctl: Option<u128>,
    pid: Option<Seq<char>>,
    guids: Seq<u128>,
    n: int,
)
    requires
        n <= guids.len(),
    ensures
        forall|x: int| 0 <= x < root_outputs(views, ctl, pid, guids, n).len() ==> from_included(
            views,
            #[trigger] root_outputs(views, ctl, pid, guids, n)[x].entity_bits,
        ),
    decreases n,
{
    if n > 0 {
        lemma_root_outputs_included(views, ctl, pid, guids, n - 1);
        let prev = root_outputs(views, ctl, pid, guids, n - 1);
        let c = cands_of(views, ctl, pid, guids, n - 1);
        let out = group_output(c);
        lemma_group_cands_included(views, ctl, pid, guids[n - 1], views.len() as int);
        lemma_root_primary_in_range(c);
        let cur = root_outputs(views, ctl, pid, guids, n);
        assert forall|x: int| 0 <= x < cur.len() implies from_included(views, #[trigger] cur[x].entity_bits) by {
            if x < prev.len() {
                assert(cur[x] == prev[x]);
            } else {
                let i = root_primary_spec(c)->0;
                assert(cur[x] == out[x - prev.len()]);
                assert(out[x - prev.len()].entity_bits == c[i].entity_bits);
            }
        }
    }
}

proof fn lemma_aux_group_included<P>(
    views: Seq<DebugOverlayEntityView<P>>,
    ctl: Option<u128>,
    pid: Option<Seq<char>>,
    lanes: Seq<(u128, DebugEntityLane)>,
    g: u128,
    n: int,
)
    ensures
        forall|x: int| 0 <= x < aux_group(views, ctl, pid, lanes, g, n).len() ==> from_included(
            views,
            (#[trigger] aux_group(views, ctl, pid, lanes, g, n)[x]).0.entity_bits,
        ),
    decreases n,
{
    if n > 0 && n <= views.len() {
        lemma_aux_group_included(views, ctl, pid, lanes, g, n - 1);
        let prev = aux_group(views, ctl, pid, lanes, g, n - 1);
        let cur = aux_group(views, ctl, pid, lanes, g, n);
        assert forall|x: int| 0 <= x < cur.len() implies from_included(views, (#[trigger] cur[x]).0.entity_bits) by {
            if x < prev.len() {
                assert(cur[x] == prev[x]);
            } else {
                assert(included(views[n - 1]));
            }
        }
    }
}

proof fn lemma_aux_outputs_included<P>(
    views: Seq<DebugOverlayEntityView<P>>,
    ctl: Option<u128>,
    pid: Option<Seq<char>>,
    lanes: Seq<(u128, DebugEntityLane)>,
    aguids: Seq<u128>,
    n: int,
)
    requires
        n <= aguids.len(),
    ensures
        forall|x: int| 0 <= x < aux_outputs(views, ctl, pid, lanes, aguids, n).len() ==> from_included(
            views,
            #[trigger] aux_outputs(views, ctl, pid, lanes, aguids, n)[x].entity_bits,
        ),
    decreases n,
{
    if n > 0 {
        lemma_aux_outputs_included(views, ctl, pid, lanes, aguids, n - 1);
        let prev = aux_outputs(views, ctl, pid, lanes, aguids, n - 1);
        let grp = aux_group(views, ctl, pid, lanes, aguids[n - 1], views.len() as int);
        let c = grp.map_values(|x: (AuxiliaryDebugCandidate<P>, bool)| x.0);
        let out = aux_output(grp, lanes);
        lemma_aux_group_included(views, ctl, pid, lanes, aguids[n - 1], views.len() as int);
        lemma_auxiliary_in_range(c, lanes);
        let cur = aux_outputs(views, ctl, pid, lanes, aguids, n);
        assert forall|x: int| 0 <= x < cur.len() implies from_included(views, #[trigger] cur[x].entity_bits) by {
            if x < prev.len() {
                assert(cur[x] == prev[x]);
            } else {
                let i = auxiliary_spec(c, lanes)->0;
                assert(cur[x] == out[x - prev.len()]);
                assert(c[i] == grp[i].0);
            }
        }
    }
}

/// Player entities and suppressed duplicates are never drawn: every entity of an enabled
/// snapshot is one of the other entities.
pub proof fn lemma_snapshot_draws_only_included<P>(
    views: Seq<DebugOverlayEntityView<P>>,
    ctl: Option<u128>,
    pid: Option<Seq<char>>,
)
    ensures
        ({
            let guids = root_guids(views, views.len() as int);
            let lanes = resolved_lanes(views, ctl, pid, guids, guids.len() as int);
            let aguids = aux_guids(views, lanes, views.len() as int);
            let drawn = root_outputs(views, ctl, pid, guids, guids.len() as int) + aux_outputs(
                views,
                ctl,
                pid,
                lanes,
                aguids,
                aguids.len() as int,
            );
            forall|x: int| 0 <= x < drawn.len() ==> from_included(views, #[trigger] drawn[x].entity_bits)
        }),
{
    let guids = root_guids(views, views.len() as int);
    let lanes = resolved_lanes(views, ctl, pid, guids, guids.len() as int);
    let aguids = aux_guids(views, lanes, views.len() as int);
    let ro = root_outputs(views, ctl, pid, guids, guids.len() as int);
    let ao = aux_outputs(views, ctl, pid, lanes, aguids, aguids.len() as int);
    lemma_root_outputs_included(views, ctl, pid, guids, guids.len() as int);
    lemma_aux_outputs_included(views, ctl, pid, lanes, aguids, aguids.len() as int);
    let drawn = ro + ao;
    assert forall|x: int| 0 <= x < drawn.len() implies from_included(views, #[trigger] drawn[x].entity_bits) by {
        if x < ro.len() {
            assert(drawn[x] == ro[x]);
        } else {
            assert(drawn[x] == ao[x - ro.len()]);
        }
    }
}

} // verus!
