//! The owner asset manifest cache: snapshots and sequenced deltas of the assets a player owns.

use vstd::prelude::*;
use crate::keyed::{Keyed, keys_unique, keyed_map, find_key, upsert_keyed, remove_keyed};

verus! {

/// One owned asset; `data` holds what the manifest says of it besides its entity id.
#[derive(Debug)]
pub struct OwnedAssetEntry<E> {
    pub entity_id: String,
    pub data: E,
}

impl<E> Keyed for OwnedAssetEntry<E> {
    open spec fn key_view(&self) -> Seq<char> {
        self.entity_id@
    }

    fn key(&self) -> (r: &String) {
        &self.entity_id
    }
}

/// A full manifest of a player's owned assets.
#[derive(Debug)]
pub struct ServerOwnerAssetManifestSnapshotMessage<E> {
    pub player_entity_id: String,
    pub sequence: u64,
    pub assets: Vec<OwnedAssetEntry<E>>,
    pub generated_at_tick: u64,
}

/// A change to the manifest, valid on top of the manifest numbered `base_sequence`.
#[derive(Debug)]
pub struct ServerOwnerAssetManifestDeltaMessage<E> {
    pub player_entity_id: String,
    pub sequence: u64,
    pub base_sequence: u64,
    pub upserts: Vec<OwnedAssetEntry<E>>,
    pub removals: Vec<String>,
    pub generated_at_tick: u64,
}

/// The client's copy of the local player's manifest.
#[derive(Debug)]
pub struct OwnedAssetManifestCache<E> {
    pub player_entity_id: Option<String>,
    pub sequence: u64,
    pub generated_at_tick: u64,
    /// When a sequence mismatch was last reported, in milliseconds.
    pub last_sequence_mismatch_log_at_ms: u64,
    pub assets_by_entity_id: Vec<OwnedAssetEntry<E>>,
}

/// Minimum time between two reports of a sequence mismatch, in milliseconds.
pub const MISMATCH_LOG_INTERVAL_MS: u64 = 1000;

/// What became of a delta.
#[derive(Debug, Clone, Copy, PartialEq, Eq)]
pub enum ManifestDeltaOutcome {
    /// The delta is for another player.
    OtherPlayer,
    /// The delta does not apply to the cached sequence; `report` says whether to log it now.
    SequenceMismatch { report: bool },
    /// The delta is not newer than the cache.
    Stale,
    Applied,
}

impl<E> OwnedAssetManifestCache<E> {
    pub open spec fn wf(&self) -> bool {
        keys_unique(self.assets_by_entity_id@)
    }

    /// The cached assets by entity id.
    pub open spec fn assets(&self) -> Map<Seq<char>, OwnedAssetEntry<E>> {
        keyed_map(self.assets_by_entity_id@)
    }

    /// An empty cache for the given player.
    pub fn new_for_player(player_entity_id: Option<String>) -> (r: Self)
        ensures
            r.wf(),
            r.player_entity_id == player_entity_id,
            r.sequence == 0,
            r.generated_at_tick == 0,
            r.last_sequence_mismatch_log_at_ms == 0,
            r.assets() == Map::<Seq<char>, OwnedAssetEntry<E>>::empty(),
    {
        let r = OwnedAssetManifestCache {
            player_entity_id,
            sequence: 0,
            generated_at_tick: 0,
            last_sequence_mismatch_log_at_ms: 0,
            assets_by_entity_id: Vec::new(),
        };
        assert(r.assets() =~= Map::<Seq<char>, OwnedAssetEntry<E>>::empty());
        r
    }
}

/// `m` after inserting each entry in order; a later entry wins over an earlier one.
pub open spec fn upsert_all<E>(
    m: Map<Seq<char>, OwnedAssetEntry<E>>,
    s: Seq<OwnedAssetEntry<E>>,
) -> Map<Seq<char>, OwnedAssetEntry<E>>
    decreases s.len(),
{
    if s.len() == 0 {
        m
    } else {
        upsert_all(m, s.drop_last()).insert(s.last().entity_id@, s.last())
    }
}

/// `m` without any of the ids.
pub open spec fn remove_all<E>(
    m: Map<Seq<char>, OwnedAssetEntry<E>>,
    ids: Seq<Seq<char>>,
) -> Map<Seq<char>, OwnedAssetEntry<E>>
    decreases ids.len(),
{
    if ids.len() == 0 {
        m
    } else {
        remove_all(m, ids.drop_last()).remove(ids.last())
    }
}

/// Whether a snapshot replaces the cache: it is for the local player and not older.
pub open spec fn snapshot_accepted<E>(
    cache: &OwnedAssetManifestCache<E>,
    local_player_id: Seq<char>,
    message: &ServerOwnerAssetManifestSnapshotMessage<E>,
) -> bool {
    message.player_entity_id@ == local_player_id && message.sequence >= cache.sequence
}

/// Moves the entries of `items` into `v` in order, each replacing one with the same id.
fn upsert_entries<E>(v: &mut Vec<OwnedAssetEntry<E>>, items: Vec<OwnedAssetEntry<E>>)
    requires
        keys_unique(old(v)@),
    ensures
        keys_unique(final(v)@),
        keyed_map(final(v)@) == upsert_all(keyed_map(old(v)@), items@),
{
    let ghost orig = items@;
    let ghost start = keyed_map(v@);
    let mut items = items;
    let n = items.len();
    assert(orig.len() == n);
    let mut i: usize = 0;
    assert(orig.take(0) =~= Seq::<OwnedAssetEntry<E>>::empty());
    while items.len() > 0
        invariant
            i <= orig.len(),
            orig.len() <= usize::MAX,
            items@ == orig.subrange(i as int, orig.len() as int),
            keys_unique(v@),
            keyed_map(v@) == upsert_all(start, orig.take(i as int)),
        decreases items.len(),
    {
        let item = items.remove(0);
        assert(item == orig[i as int]);
        assert(orig.take(i + 1).drop_last() =~= orig.take(i as int));
        upsert_keyed(v, item);
        i = i + 1;
        assert(items@ =~= orig.subrange(i as int, orig.len() as int));
    }
    assert(orig.take(i as int) =~= orig);
}

/// Removes every listed id from `v`.
fn remove_entries<E>(v: &mut Vec<OwnedAssetEntry<E>>, ids: &Vec<String>)
    requires
        keys_unique(old(v)@),
    ensures
        keys_unique(final(v)@),
        keyed_map(final(v)@) == remove_all(keyed_map(old(v)@), ids@.map_values(|s: String| s@)),
{
    let ghost idv = ids@.map_values(|s: String| s@);
    let ghost start = keyed_map(v@);
    let mut i: usize = 0;
    assert(idv.take(0) =~= Seq::<Seq<char>>::empty());
    while i < ids.len()
        invariant
            i <= ids@.len(),
            idv == ids@.map_values(|s: String| s@),
            keys_unique(v@),
            keyed_map(v@) == remove_all(start, idv.take(i as int)),
        decreases ids.len() - i,
    {
        assert(idv.take(i + 1).drop_last() =~= idv.take(i as int));
        assert(idv.take(i + 1).last() == ids@[i as int]@);
        remove_keyed(v, &ids[i]);
        i = i + 1;
    }
    assert(idv.take(i as int) =~= idv);
}

/// What the cache holds, as values.
pub ghost struct ManifestState<E> {
    pub sequence: u64,
    pub generated_at_tick: u64,
    pub last_sequence_mismatch_log_at_ms: u64,
    pub assets: Map<Seq<char>, OwnedAssetEntry<E>>,
}

impl<E> OwnedAssetManifestCache<E> {
    pub open spec fn state(&self) -> ManifestState<E> {
        ManifestState {
            sequence: self.sequence,
            generated_at_tick: self.generated_at_tick,
            last_sequence_mismatch_log_at_ms: self.last_sequence_mismatch_log_at_ms,
            assets: self.assets(),
        }
    }
}

/// The cache after a snapshot: one for the local player that is not older replaces it.
pub open spec fn snapshot_step<E>(
    st: ManifestState<E>,
    local_player_id: Seq<char>,
    message: &ServerOwnerAssetManifestSnapshotMessage<E>,
) -> ManifestState<E> {
    if message.player_entity_id@ == local_player_id && message.sequence >= st.sequence {
        ManifestState {
            sequence: message.sequence,
            generated_at_tick: message.generated_at_tick,
            last_sequence_mismatch_log_at_ms: st.last_sequence_mismatch_log_at_ms,
            assets: upsert_all(Map::empty(), message.assets@),
        }
    } else {
        st
    }
}

/// What a delta does to the cache.
pub open spec fn delta_outcome<E>(
    st: ManifestState<E>,
    local_player_id: Seq<char>,
    message: &ServerOwnerAssetManifestDeltaMessage<E>,
    now_ms: u64,
) -> ManifestDeltaOutcome {
    if message.player_entity_id@ != local_player_id {
        ManifestDeltaOutcome::OtherPlayer
    } else if message.base_sequence != st.sequence {
        ManifestDeltaOutcome::SequenceMismatch {
            report: now_ms as int - st.last_sequence_mismatch_log_at_ms as int
                >= MISMATCH_LOG_INTERVAL_MS as int,
        }
    } else if message.sequence <= st.sequence {
        ManifestDeltaOutcome::Stale
    } else {
        ManifestDeltaOutcome::Applied
    }
}

/// The ids that a delta removes.
pub open spec fn removal_ids<E>(message: &ServerOwnerAssetManifestDeltaMessage<E>) -> Seq<Seq<char>> {
    message.removals@.map_values(|s: String| s@)
}

/// The cache after a delta.
pub open spec fn delta_step<E>(
    st: ManifestState<E>,
    local_player_id: Seq<char>,
    message: &ServerOwnerAssetManifestDeltaMessage<E>,
    now_ms: u64,
) -> ManifestState<E> {
    match delta_outcome(st, local_player_id, message, now_ms) {
        ManifestDeltaOutcome::Applied => ManifestState {
            sequence: message.sequence,
            generated_at_tick: message.generated_at_tick,
            last_sequence_mismatch_log_at_ms: st.last_sequence_mismatch_log_at_ms,
            assets: upsert_all(remove_all(st.assets, removal_ids(message)), message.upserts@),
        },
        ManifestDeltaOutcome::SequenceMismatch { report: true } => ManifestState {
            last_sequence_mismatch_log_at_ms: now_ms,
            ..st
        },
        _ => st,
    }
}

/// Applies a full manifest snapshot: a snapshot for the local player that is not older than
/// the cache replaces its content; any other snapshot is ignored.
pub fn apply_owner_manifest_snapshot<E>(
    cache: &mut OwnedAssetManifestCache<E>,
    local_player_id: &String,
    message: ServerOwnerAssetManifestSnapshotMessage<E>,
) -> (applied: bool)
    requires
        old(cache).wf(),
    ensures
        final(cache).wf(),
        applied == snapshot_accepted(&*old(cache), local_player_id@, &message),
        final(cache).player_entity_id == old(cache).player_entity_id,
        final(cache).state() == snapshot_step(old(cache).state(), local_player_id@, &message),
{
    if message.player_entity_id != *local_player_id {
        return false;
    }
    if message.sequence < cache.sequence {
        return false;
    }
    cache.sequence = message.sequence;
    cache.generated_at_tick = message.generated_at_tick;
    let mut fresh: Vec<OwnedAssetEntry<E>> = Vec::new();
    assert(keyed_map(fresh@) =~= Map::<Seq<char>, OwnedAssetEntry<E>>::empty());
    upsert_entries(&mut fresh, message.assets);
    cache.assets_by_entity_id = fresh;
    assert(cache.state() == snapshot_step(old(cache).state(), local_player_id@, &message));
    true
}

/// Applies a manifest delta. It applies only on top of the cached sequence (`base_sequence`
/// equal to it) and when it is newer; then removals go first and upserts after. A delta on
/// another base is reported at most once a second and otherwise ignored.
pub fn apply_owner_manifest_delta<E>(
    cache: &mut OwnedAssetManifestCache<E>,
    local_player_id: &String,
    message: ServerOwnerAssetManifestDeltaMessage<E>,
    now_ms: u64,
) -> (outcome: ManifestDeltaOutcome)
    requires
        old(cache).wf(),
    ensures
        final(cache).wf(),
        final(cache).player_entity_id == old(cache).player_entity_id,
        outcome == delta_outcome(old(cache).state(), local_player_id@, &message, now_ms),
        final(cache).state() == delta_step(old(cache).state(), local_player_id@, &message, now_ms),
{
    if message.player_entity_id != *local_player_id {
        return ManifestDeltaOutcome::OtherPlayer;
    }
    if message.base_sequence != cache.sequence {
        let report = now_ms >= cache.last_sequence_mismatch_log_at_ms
            && now_ms - cache.last_sequence_mismatch_log_at_ms >= MISMATCH_LOG_INTERVAL_MS;
        if report {
            cache.last_sequence_mismatch_log_at_ms = now_ms;
        }
        return ManifestDeltaOutcome::SequenceMismatch { report };
    }
    if message.sequence <= cache.sequence {
        return ManifestDeltaOutcome::Stale;
    }
    remove_entries(&mut cache.assets_by_entity_id, &message.removals);
    upsert_entries(&mut cache.assets_by_entity_id, message.upserts);
    cache.sequence = message.sequence;
    cache.generated_at_tick = message.generated_at_tick;
    ManifestDeltaOutcome::Applied
}

impl<E> OwnedAssetManifestCache<E> {
    /// Whether the cache holds an asset with this entity id.
    pub fn contains_asset(&self, entity_id: &String) -> (r: bool)
        requires
            self.wf(),
        ensures
            r == self.assets().contains_key(entity_id@),
    {
        find_key(&self.assets_by_entity_id, entity_id).is_some()
    }
}

/// The state of an empty cache.
pub open spec fn empty_state<E>() -> ManifestState<E> {
    ManifestState {
        sequence: 0,
        generated_at_tick: 0,
        last_sequence_mismatch_log_at_ms: 0,
        assets: Map::empty(),
    }
}

/// The state a batch starts from: the cache if it belongs to the local player, else an empty one.
pub open spec fn batch_start<E>(cache: &OwnedAssetManifestCache<E>, local_player_id: Seq<char>) -> ManifestState<E> {
    match cache.player_entity_id {
        Some(p) if p@ == local_player_id => cache.state(),
        _ => empty_state(),
    }
}

/// The state after a sequence of snapshots, in order.
pub open spec fn snapshots_step<E>(
    st: ManifestState<E>,
    local_player_id: Seq<char>,
    msgs: Seq<ServerOwnerAssetManifestSnapshotMessage<E>>,
) -> ManifestState<E>
    decreases msgs.len(),
{
    if msgs.len() == 0 {
        st
    } else {
        snapshot_step(snapshots_step(st, local_player_id, msgs.drop_last()), local_player_id, &msgs.last())
    }
}

/// The state after a sequence of deltas, in order, all received at `now_ms`.
pub open spec fn deltas_step<E>(
    st: ManifestState<E>,
    local_player_id: Seq<char>,
    msgs: Seq<ServerOwnerAssetManifestDeltaMessage<E>>,
    now_ms: u64,
) -> ManifestState<E>
    decreases msgs.len(),
{
    if msgs.len() == 0 {
        st
    } else {
        delta_step(deltas_step(st, local_player_id, msgs.drop_last(), now_ms), local_player_id, &msgs.last(), now_ms)
    }
}

/// Handles one frame of manifest traffic. Without a local player nothing changes. Otherwise a
/// cache of another player is first reset to an empty one for the local player; then every
/// snapshot is applied in order, and after them every delta.
pub fn receive_owner_asset_manifest_messages<E>(
    cache: &mut OwnedAssetManifestCache<E>,
    local_player_id: Option<String>,
    snapshots: Vec<ServerOwnerAssetManifestSnapshotMessage<E>>,
    deltas: Vec<ServerOwnerAssetManifestDeltaMessage<E>>,
    now_ms: u64,
)
    requires
        old(cache).wf(),
    ensures
        final(cache).wf(),
        match local_player_id {
            None => *final(cache) == *old(cache),
            Some(id) => {
                &&& final(cache).player_entity_id matches Some(p) && p@ == id@
                &&& final(cache).state() == deltas_step(
                    snapshots_step(batch_start(&*old(cache), id@), id@, snapshots@),
                    id@,
                    deltas@,
                    now_ms,
                )
            },
        },
{
    let local = match local_player_id {
        Some(id) => id,
        None => return,
    };
    let same = match &cache.player_entity_id {
        Some(p) => *p == local,
        None => false,
    };
    if !same {
        *cache = OwnedAssetManifestCache::new_for_player(Some(local.clone()));
        assert(cache.state() == empty_state::<E>());
    }
    assert(cache.state() == batch_start(&*old(cache), local@));
    let ghost start = cache.state();
    let ghost snaps = snapshots@;
    let mut snapshots = snapshots;
    let ghost n = snapshots.len();
    assert(snaps.len() == n);
    let mut i: usize = 0;
    assert(snaps.take(0) =~= Seq::<ServerOwnerAssetManifestSnapshotMessage<E>>::empty());
    while snapshots.len() > 0
        invariant
            i <= snaps.len(),
            snaps.len() <= usize::MAX,
            snapshots@ == snaps.subrange(i as int, snaps.len() as int),
            cache.wf(),
            cache.player_entity_id matches Some(p) && p@ == local@,
            cache.state() == snapshots_step(start, local@, snaps.take(i as int)),
        decreases snapshots.len(),
    {
        let message = snapshots.remove(0);
        assert(message == snaps[i as int]);
        assert(snaps.take(i + 1).drop_last() =~= snaps.take(i as int));
        apply_owner_manifest_snapshot(cache, &local, message);
        i = i + 1;
        assert(snapshots@ =~= snaps.subrange(i as int, snaps.len() as int));
    }
    assert(snaps.take(i as int) =~= snaps);
    let ghost mid = cache.state();
    let ghost ds = deltas@;
    let mut deltas = deltas;
    let ghost m = deltas.len();
    assert(ds.len() == m);
    let mut j: usize = 0;
    assert(ds.take(0) =~= Seq::<ServerOwnerAssetManifestDeltaMessage<E>>::empty());
    while deltas.len() > 0
        invariant
            j <= ds.len(),
            ds.len() <= usize::MAX,
            deltas@ == ds.subrange(j as int, ds.len() as int),
            cache.wf(),
            cache.player_entity_id matches Some(p) && p@ == local@,
            cache.state() == deltas_step(mid, local@, ds.take(j as int), now_ms),
        decreases deltas.len(),
    {
        let message = deltas.remove(0);
        assert(message == ds[j as int]);
        assert(ds.take(j + 1).drop_last() =~= ds.take(j as int));
        let _ = apply_owner_manifest_delta(cache, &local, message, now_ms);
        j = j + 1;
        assert(deltas@ =~= ds.subrange(j as int, ds.len() as int));
    }
    assert(ds.take(j as int) =~= ds);
}

/// Some entry of `s` carries the id `k`.
pub open spec fn carries_id<E>(s: Seq<OwnedAssetEntry<E>>, k: Seq<char>) -> bool {
    exists|i: int| 0 <= i < s.len() && #[trigger] s[i].entity_id@ == k
}

/// What `upsert_all` holds: the keys of `m` and of the entries; an id that no entry carries
/// keeps its value, and an id takes the value of the last entry that carries it.
pub proof fn lemma_upsert_all<E>(m: Map<Seq<char>, OwnedAssetEntry<E>>, s: Seq<OwnedAssetEntry<E>>, k: Seq<char>)
    ensures
        upsert_all(m, s).contains_key(k) <==> (m.contains_key(k) || carries_id(s, k)),
        !carries_id(s, k) && m.contains_key(k) ==> upsert_all(m, s)[k] == m[k],
        forall|i: int|
            0 <= i < s.len() && #[trigger] s[i].entity_id@ == k
                && (forall|j: int| i < j < s.len() ==> #[trigger] s[j].entity_id@ != k)
                ==> upsert_all(m, s)[k] == s[i],
    decreases s.len(),
{
    if s.len() > 0 {
        let p = s.drop_last();
        lemma_upsert_all(m, p, k);
        if carries_id(s, k) && s.last().entity_id@ != k {
            let i = choose|i: int| 0 <= i < s.len() && #[trigger] s[i].entity_id@ == k;
            assert(p[i].entity_id@ == k);
        }
        if carries_id(p, k) {
            let i = choose|i: int| 0 <= i < p.len() && #[trigger] p[i].entity_id@ == k;
            assert(s[i].entity_id@ == k);
        }
        assert forall|i: int|
            0 <= i < s.len() && #[trigger] s[i].entity_id@ == k
                && (forall|j: int| i < j < s.len() ==> #[trigger] s[j].entity_id@ != k)
            implies upsert_all(m, s)[k] == s[i] by {
            if i < s.len() - 1 {
                assert(s[s.len() - 1].entity_id@ != k);
                assert(p[i].entity_id@ == k);
                assert forall|j: int| i < j < p.len() implies #[trigger] p[j].entity_id@ != k by {
                    assert(s[j].entity_id@ != k);
                }
            }
        }
    }
}

/// What `remove_all` holds: the keys of `m` that are not listed, with their values.
pub proof fn lemma_remove_all<E>(m: Map<Seq<char>, OwnedAssetEntry<E>>, ids: Seq<Seq<char>>, k: Seq<char>)
    ensures
        remove_all(m, ids).contains_key(k) <==> (m.contains_key(k) && !ids.contains(k)),
        remove_all(m, ids).contains_key(k) ==> remove_all(m, ids)[k] == m[k],
    decreases ids.len(),
{
    if ids.len() > 0 {
        let p = ids.drop_last();
        lemma_remove_all(m, p, k);
        if ids.contains(k) && ids.last() != k {
            let i = choose|i: int| 0 <= i < ids.len() && ids[i] == k;
            assert(p[i] == k);
        }
        if p.contains(k) {
            let i = choose|i: int| 0 <= i < p.len() && p[i] == k;
            assert(ids[i] == k);
        }
    }
}

/// A snapshot or a delta never lowers the cached sequence number.
pub proof fn lemma_manifest_sequence_never_decreases<E>(
    st: ManifestState<E>,
    local_player_id: Seq<char>,
    snapshot: &ServerOwnerAssetManifestSnapshotMessage<E>,
    delta: &ServerOwnerAssetManifestDeltaMessage<E>,
    now_ms: u64,
)
    ensures
        snapshot_step(st, local_player_id, snapshot).sequence >= st.sequence,
        delta_step(st, local_player_id, delta, now_ms).sequence >= st.sequence,
{
}

/// A batch of snapshots, and a batch of deltas, never lowers the cached sequence number.
pub proof fn lemma_manifest_batches_never_lower_sequence<E>(
    st: ManifestState<E>,
    local_player_id: Seq<char>,
    snapshots: Seq<ServerOwnerAssetManifestSnapshotMessage<E>>,
    deltas: Seq<ServerOwnerAssetManifestDeltaMessage<E>>,
    now_ms: u64,
)
    ensures
        snapshots_step(st, local_player_id, snapshots).sequence >= st.sequence,
        deltas_step(st, local_player_id, deltas, now_ms).sequence >= st.sequence,
    decreases snapshots.len() + deltas.len(),
{
    if snapshots.len() > 0 {
        lemma_manifest_batches_never_lower_sequence(st, local_player_id, snapshots.drop_last(), deltas, now_ms);
    }
    if deltas.len() > 0 {
        lemma_manifest_batches_never_lower_sequence(st, local_player_id, snapshots, deltas.drop_last(), now_ms);
    }
}

/// Messages addressed to another player leave the cache as it is.
pub proof fn lemma_foreign_manifest_messages_change_nothing<E>(
    st: ManifestState<E>,
    local_player_id: Seq<char>,
    snapshot: &ServerOwnerAssetManifestSnapshotMessage<E>,
    delta: &ServerOwnerAssetManifestDeltaMessage<E>,
    now_ms: u64,
)
    requires
        snapshot.player_entity_id@ != local_player_id,
        delta.player_entity_id@ != local_player_id,
    ensures
        snapshot_step(st, local_player_id, snapshot) == st,
        delta_step(st, local_player_id, delta, now_ms) == st,
{
}

/// Receiving an applied delta a second time changes neither the assets nor the sequence.
pub proof fn lemma_manifest_delta_replay_changes_nothing<E>(
    st: ManifestState<E>,
    local_player_id: Seq<char>,
    delta: &ServerOwnerAssetManifestDeltaMessage<E>,
    now_ms: u64,
    later_ms: u64,
)
    requires
        delta_outcome(st, local_player_id, delta, now_ms) == ManifestDeltaOutcome::Applied,
    ensures
        ({
            let once = delta_step(st, local_player_id, delta, now_ms);
            let twice = delta_step(once, local_player_id, delta, later_ms);
            &&& twice.assets == once.assets
            &&& twice.sequence == once.sequence
            &&& twice.generated_at_tick == once.generated_at_tick
            &&& delta_outcome(once, local_player_id, delta, later_ms) is SequenceMismatch
        }),
{
}

/// An applied delta: an id is cached afterwards when some upsert carries it, or when it was
/// cached and not removed; the last upsert of an id gives its entry, and an id that the delta
/// does not name keeps its entry.
pub proof fn lemma_applied_manifest_delta_contents<E>(
    st: ManifestState<E>,
    local_player_id: Seq<char>,
    delta: &ServerOwnerAssetManifestDeltaMessage<E>,
    now_ms: u64,
    k: Seq<char>,
)
    requires
        delta_outcome(st, local_player_id, delta, now_ms) == ManifestDeltaOutcome::Applied,
    ensures
        ({
            let after = delta_step(st, local_player_id, delta, now_ms).assets;
            &&& after.contains_key(k) <==> (carries_id(delta.upserts@, k) || (st.assets.contains_key(k)
                && !removal_ids(delta).contains(k)))
            &&& (!carries_id(delta.upserts@, k) && !removal_ids(delta).contains(k) && st.assets.contains_key(k))
                ==> after[k] == st.assets[k]
            &&& forall|i: int|
                0 <= i < delta.upserts@.len() && #[trigger] delta.upserts@[i].entity_id@ == k
                    && (forall|j: int| i < j < delta.upserts@.len() ==> #[trigger] delta.upserts@[j].entity_id@ != k)
                    ==> after[k] == delta.upserts@[i]
        }),
{
    lemma_remove_all(st.assets, removal_ids(delta), k);
    lemma_upsert_all(remove_all(st.assets, removal_ids(delta)), delta.upserts@, k);
}

/// An accepted snapshot: the cache holds exactly the ids of its assets, each with the last entry
/// that carries it, and takes its sequence number.
pub proof fn lemma_accepted_manifest_snapshot_contents<E>(
    st: ManifestState<E>,
    local_player_id: Seq<char>,
    snapshot: &ServerOwnerAssetManifestSnapshotMessage<E>,
    k: Seq<char>,
)
    requires
        snapshot.player_entity_id@ == local_player_id,
        snapshot.sequence >= st.sequence,
    ensures
        ({
            let after = snapshot_step(st, local_player_id, snapshot);
            &&& after.sequence == snapshot.sequence
            &&& after.assets.contains_key(k) <==> carries_id(snapshot.assets@, k)
            &&& forall|i: int|
                0 <= i < snapshot.assets@.len() && #[trigger] snapshot.assets@[i].entity_id@ == k
                    && (forall|j: int| i < j < snapshot.assets@.len() ==> #[trigger] snapshot.assets@[j].entity_id@ != k)
                    ==> after.assets[k] == snapshot.assets@[i]
        }),
{
    lemma_upsert_all(Map::<Seq<char>, OwnedAssetEntry<E>>::empty(), snapshot.assets@, k);
}


/// Applying the same snapshot twice leaves the cache as applying it once.
pub proof fn lemma_manifest_snapshot_idempotent<E>(
    st: ManifestState<E>,
    local_player_id: Seq<char>,
    snapshot: &ServerOwnerAssetManifestSnapshotMessage<E>,
)
    ensures
        snapshot_step(snapshot_step(st, local_player_id, snapshot), local_player_id, snapshot) == snapshot_step(
            st,
            local_player_id,
            snapshot,
        ),
{
}

} // verus!
