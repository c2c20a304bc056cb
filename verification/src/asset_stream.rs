//! Assets streamed over the replication connection: manifests, chunk assembly and acks.

use vstd::prelude::*;
use crate::assets::str_views;
use crate::asset_cache::{LocalAssetManager, LocalAssetRecord, AssetCacheIndexRecord};
use crate::keyed::{Keyed, keys_unique, keyed_map, find_key, upsert_keyed, remove_keyed};
use crate::asset_fetch::remove_every_string;
use crate::assets::contains_string;
use crate::control::ov;

verus! {

/// One asset announced by a stream manifest.
#[derive(Debug)]
pub struct AssetStreamManifestEntry {
    pub asset_id: String,
    pub relative_cache_path: String,
    pub content_type: String,
    pub byte_len: u64,
    pub chunk_count: u32,
    pub asset_version: u64,
    pub sha256_hex: String,
}

/// A request for an asset, with the version the client already knows of it.
#[derive(Debug)]
pub struct RequestedAsset {
    pub asset_id: String,
    pub known_asset_version: Option<u64>,
    pub known_sha256_hex: Option<String>,
}

/// The confirmation that a streamed asset arrived intact.
#[derive(Debug)]
pub struct AssetAck {
    pub asset_id: String,
    pub asset_version: u64,
    pub sha256_hex: String,
}

/// The chunks received so far of an asset being streamed.
#[derive(Debug)]
pub struct PendingAssetChunks {
    pub asset_id: String,
    pub relative_cache_path: String,
    pub byte_len: u64,
    pub chunk_count: u32,
    /// One slot per chunk, filled as chunks arrive.
    pub chunks: Vec<Option<Vec<u8>>>,
    /// The asset belongs to the bootstrap manifest.
    pub counts_toward_bootstrap: bool,
}

impl Keyed for PendingAssetChunks {
    open spec fn key_view(&self) -> Seq<char> {
        self.asset_id@
    }

    fn key(&self) -> (r: &String) {
        &self.asset_id
    }
}

/// Assets being streamed, and those requested from the server.
#[derive(Debug)]
pub struct AssetStreamState {
    pub pending_assets: Vec<PendingAssetChunks>,
    pub requested_asset_ids: Vec<String>,
}

impl PendingAssetChunks {
    /// As many slots as chunks.
    pub open spec fn wf(&self) -> bool {
        self.chunks@.len() == self.chunk_count as nat
    }
}

impl AssetStreamState {
    /// One pending entry per asset, each well formed; requested ids without repeats.
    pub open spec fn wf(&self) -> bool {
        &&& keys_unique(self.pending_assets@)
        &&& forall|i: int| 0 <= i < self.pending_assets@.len() ==> #[trigger] self.pending_assets@[i].wf()
        &&& str_views(self.requested_asset_ids@).no_duplicates()
    }

    pub open spec fn pending(&self) -> Map<Seq<char>, PendingAssetChunks> {
        keyed_map(self.pending_assets@)
    }

    /// Nothing streamed yet.
    pub fn new() -> (r: Self)
        ensures
            r.wf(),
            r.pending() == Map::<Seq<char>, PendingAssetChunks>::empty(),
            r.requested_asset_ids@.len() == 0,
    {
        let r = AssetStreamState { pending_assets: Vec::new(), requested_asset_ids: Vec::new() };
        assert(r.pending() =~= Map::<Seq<char>, PendingAssetChunks>::empty());
        r
    }

    /// How many assets are still being streamed.
    pub fn pending_count(&self) -> (r: usize)
        ensures
            r == self.pending_assets@.len(),
    {
        self.pending_assets.len()
    }
}

/// The bytes of the filled slots, in slot order.
pub open spec fn joined_chunks(chunks: Seq<Option<Vec<u8>>>) -> Seq<u8>
    decreases chunks.len(),
{
    if chunks.len() == 0 {
        Seq::empty()
    } else {
        joined_chunks(chunks.drop_last()) + match chunks.last() {
            Some(b) => b@,
            None => Seq::empty(),
        }
    }
}

/// Every slot is filled.
pub open spec fn all_chunks_present(chunks: Seq<Option<Vec<u8>>>) -> bool {
    forall|i: int| 0 <= i < chunks.len() ==> #[trigger] chunks[i] is Some
}

/// Whether the cache index holds this exact version of the asset.
pub open spec fn cache_fresh_spec(m: &LocalAssetManager, asset_id: Seq<char>, asset_version: u64, sha256_hex: Seq<char>) -> bool {
    m.index().contains_key(asset_id) && m.index()[asset_id].asset_version == asset_version
        && m.index()[asset_id].sha256_hex@ == sha256_hex
}

/// Whether the cache index holds this exact version of the asset.
pub fn is_cache_fresh(m: &LocalAssetManager, asset_id: &String, asset_version: u64, sha256_hex: &String) -> (r: bool)
    requires
        m.wf(),
    ensures
        r == cache_fresh_spec(m, asset_id@, asset_version, sha256_hex@),
{
    match find_key(&m.cache_index, asset_id) {
        Some(i) => m.cache_index[i].asset_version == asset_version && m.cache_index[i].sha256_hex == *sha256_hex,
        None => false,
    }
}

/// A vector of `n` empty slots.
fn empty_slots(n: u32) -> (r: Vec<Option<Vec<u8>>>)
    ensures
        r@.len() == n as nat,
        forall|i: int| 0 <= i < n ==> #[trigger] r@[i] is None,
{
    let mut r: Vec<Option<Vec<u8>>> = Vec::new();
    let mut i: u32 = 0;
    while i < n
        invariant
            i <= n,
            r@.len() == i as nat,
            forall|k: int| 0 <= k < i ==> #[trigger] r@[k] is None,
        decreases n - i,
    {
        r.push(None);
        i = i + 1;
    }
    r
}

/// The request for an asset, with what the cache index knows of it.
pub fn requested_asset_for(m: &LocalAssetManager, asset_id: &String) -> (r: RequestedAsset)
    requires
        m.wf(),
    ensures
        r.asset_id@ == asset_id@,
        m.index().contains_key(asset_id@) ==> (r.known_asset_version == Some(m.index()[asset_id@].asset_version)
            && (r.known_sha256_hex matches Some(s) && s@ == m.index()[asset_id@].sha256_hex@)),
        !m.index().contains_key(asset_id@) ==> r.known_asset_version is None && r.known_sha256_hex is None,
{
    match find_key(&m.cache_index, asset_id) {
        Some(i) => RequestedAsset {
            asset_id: asset_id.clone(),
            known_asset_version: Some(m.cache_index[i].asset_version),
            known_sha256_hex: Some(m.cache_index[i].sha256_hex.clone()),
        },
        None => RequestedAsset { asset_id: asset_id.clone(), known_asset_version: None, known_sha256_hex: None },
    }
}

/// Handles one entry of a stream manifest. `has_cached_file` says whether a non-empty file is
/// at its cache path. A fresh cached copy is taken as ready (and counts as bootstrap bytes
/// already present when `is_bootstrap`); otherwise the asset gets empty chunk slots and is
/// requested, once. Its record is replaced either way, and a bootstrap manifest adds its size
/// to the bootstrap total.
pub fn receive_asset_stream_manifest_entry(
    m: &mut LocalAssetManager,
    stream: &mut AssetStreamState,
    entry: AssetStreamManifestEntry,
    has_cached_file: bool,
    is_bootstrap: bool,
) -> (request: Option<RequestedAsset>)
    requires
        old(m).wf(),
        old(stream).wf(),
    ensures
        final(m).wf(),
        final(stream).wf(),
        final(m).catalog_by_asset_id == old(m).catalog_by_asset_id,
        final(m).cache_index == old(m).cache_index,
        final(m).bootstrap_phase_complete == old(m).bootstrap_phase_complete,
        final(m).bootstrap_manifest_seen == old(m).bootstrap_manifest_seen,
        ({
            let fresh = has_cached_file && cache_fresh_spec(&*old(m), entry.asset_id@, entry.asset_version, entry.sha256_hex@);
            &&& final(m).records().dom() == old(m).records().dom().insert(entry.asset_id@)
            &&& final(m).records()[entry.asset_id@].ready == fresh
            &&& final(m).records()[entry.asset_id@].relative_cache_path@ == entry.relative_cache_path@
            &&& final(m).records()[entry.asset_id@].chunk_count == entry.chunk_count
            &&& final(m).records()[entry.asset_id@].asset_version == entry.asset_version
            &&& final(m).records()[entry.asset_id@].sha256_hex@ == entry.sha256_hex@
            &&& forall|k: Seq<char>| k != entry.asset_id@ && old(m).records().contains_key(k)
                ==> final(m).records()[k] == old(m).records()[k]
            &&& final(m).bootstrap_total_bytes == if is_bootstrap {
                old(m).bootstrap_total_bytes.saturating_add(entry.byte_len)
            } else {
                old(m).bootstrap_total_bytes
            }
            &&& final(m).bootstrap_ready_bytes == if fresh && is_bootstrap {
                old(m).bootstrap_ready_bytes.saturating_add(entry.byte_len)
            } else {
                old(m).bootstrap_ready_bytes
            }
            &&& fresh ==> request is None && final(stream).pending_assets == old(stream).pending_assets
                && final(stream).requested_asset_ids == old(stream).requested_asset_ids
            &&& !fresh ==> {
                &&& final(stream).pending().dom() == old(stream).pending().dom().insert(entry.asset_id@)
                &&& final(stream).pending()[entry.asset_id@].chunk_count == entry.chunk_count
                &&& final(stream).pending()[entry.asset_id@].byte_len == entry.byte_len
                &&& final(stream).pending()[entry.asset_id@].counts_toward_bootstrap == is_bootstrap
                &&& final(stream).pending()[entry.asset_id@].relative_cache_path@ == entry.relative_cache_path@
                &&& forall|i: int| 0 <= i < entry.chunk_count ==> #[trigger] final(stream).pending()[entry.asset_id@].chunks@[i] is None
                &&& forall|k: Seq<char>| k != entry.asset_id@ && old(stream).pending().contains_key(k)
                    ==> final(stream).pending()[k] == old(stream).pending()[k]
                &&& if str_views(old(stream).requested_asset_ids@).contains(entry.asset_id@) {
                    request is None && final(stream).requested_asset_ids == old(stream).requested_asset_ids
                } else {
                    &&& request matches Some(rq) && request_matches(&*old(m), rq, entry.asset_id@)
                    &&& str_views(final(stream).requested_asset_ids@) == str_views(old(stream).requested_asset_ids@).push(entry.asset_id@)
                }
            }
        }),
{
    let has_fresh_index = is_cache_fresh(m, &entry.asset_id, entry.asset_version, &entry.sha256_hex);
    let fresh = has_cached_file && has_fresh_index;
    let mut request: Option<RequestedAsset> = None;
    if fresh {
        if is_bootstrap {
            m.bootstrap_ready_bytes = m.bootstrap_ready_bytes.saturating_add(entry.byte_len);
        }
    } else {
        let chunks = empty_slots(entry.chunk_count);
        let ghost pend0 = stream.pending_assets@;
        let pending = PendingAssetChunks {
            asset_id: entry.asset_id.clone(),
            relative_cache_path: entry.relative_cache_path.clone(),
            byte_len: entry.byte_len,
            chunk_count: entry.chunk_count,
            chunks,
            counts_toward_bootstrap: is_bootstrap,
        };
        upsert_keyed(&mut stream.pending_assets, pending);
        proof {
            assert forall|i: int| 0 <= i < stream.pending_assets@.len() implies #[trigger] stream.pending_assets@[i].wf() by {
                let k = stream.pending_assets@[i].key_view();
                crate::keyed::lemma_key_pos(stream.pending_assets@, i);
                if k != entry.asset_id@ {
                    let j = crate::keyed::key_pos(pend0, k);
                    assert(keyed_map(pend0).contains_key(k));
                    assert(pend0[j].wf());
                }
            }
            assert(stream.pending().dom() =~= keyed_map(pend0).dom().insert(entry.asset_id@));
        }
        if !contains_string(&stream.requested_asset_ids, &entry.asset_id) {
            let ghost req0 = str_views(stream.requested_asset_ids@);
            stream.requested_asset_ids.push(entry.asset_id.clone());
            proof {
                let n = str_views(stream.requested_asset_ids@);
                assert(n =~= req0.push(entry.asset_id@));
                assert forall|a: int, b: int| 0 <= a < n.len() && 0 <= b < n.len() && a != b implies n[a] != n[b] by {
                    if a < req0.len() && b < req0.len() {
                        assert(n[a] == req0[a] && n[b] == req0[b]);
                    } else if a < req0.len() {
                        assert(req0.contains(n[a]));
                    } else if b < req0.len() {
                        assert(req0.contains(n[b]));
                    }
                }
            }
            request = Some(requested_asset_for(m, &entry.asset_id));
        }
    }
    if is_bootstrap {
        m.bootstrap_total_bytes = m.bootstrap_total_bytes.saturating_add(entry.byte_len);
    }
    let ghost rec0 = m.records();
    upsert_keyed(
        &mut m.records_by_asset_id,
        LocalAssetRecord {
            asset_id: entry.asset_id,
            relative_cache_path: entry.relative_cache_path,
            content_type: entry.content_type,
            byte_len: entry.byte_len,
            chunk_count: entry.chunk_count,
            asset_version: entry.asset_version,
            sha256_hex: entry.sha256_hex,
            ready: fresh,
        },
    );
    assert(m.records().dom() =~= rec0.dom().insert(entry.asset_id@));
    request
}

/// What became of a received chunk.
#[derive(Debug)]
pub enum AssetChunkOutcome {
    /// No asset is being streamed under that id, the chunk count differs, or the index is out
    /// of range.
    Ignored,
    /// Stored; chunks are still missing.
    Stored,
    /// Stored, and every chunk is there: the joined payload, for the given cache path.
    Completed { relative_cache_path: String, payload: Vec<u8> },
}

/// Joins the filled slots in order.
fn join_chunks(chunks: &Vec<Option<Vec<u8>>>) -> (r: Vec<u8>)
    ensures
        r@ == joined_chunks(chunks@),
{
    let mut r: Vec<u8> = Vec::new();
    let mut i: usize = 0;
    while i < chunks.len()
        invariant
            i <= chunks@.len(),
            r@ == joined_chunks(chunks@.take(i as int)),
        decreases chunks.len() - i,
    {
        assert(chunks@.take(i + 1).drop_last() =~= chunks@.take(i as int));
        assert(chunks@.take(i + 1).last() == chunks@[i as int]);
        match &chunks[i] {
            Some(b) => {
                let ghost before = r@;
                let mut k: usize = 0;
                while k < b.len()
                    invariant
                        k <= b@.len(),
                        r@ == before + b@.take(k as int),
                    decreases b.len() - k,
                {
                    r.push(b[k]);
                    k = k + 1;
                    assert(r@ =~= before + b@.take(k as int));
                }
                assert(b@.take(k as int) =~= b@);
            },
            None => {
                assert(r@ =~= r@ + Seq::<u8>::empty());
            },
        }
        i = i + 1;
    }
    assert(chunks@.take(i as int) =~= chunks@);
    r
}

/// Stores a chunk of a streamed asset. A chunk for an asset that is not being streamed, with
/// another chunk count or with an index past the slots is ignored. When the last missing slot
/// is filled, the payload is the chunks joined in slot order.
pub fn receive_asset_stream_chunk(
    stream: &mut AssetStreamState,
    asset_id: &String,
    chunk_index: u32,
    chunk_count: u32,
    bytes: Vec<u8>,
) -> (r: AssetChunkOutcome)
    requires
        old(stream).wf(),
    ensures
        final(stream).wf(),
        final(stream).requested_asset_ids == old(stream).requested_asset_ids,
        final(stream).pending().dom() == old(stream).pending().dom(),
        ({
            let p = old(stream).pending();
            if !p.contains_key(asset_id@) || p[asset_id@].chunk_count != chunk_count || chunk_index >= chunk_count {
                r is Ignored && final(stream).pending() == old(stream).pending()
            } else {
                let slots = p[asset_id@].chunks@.update(chunk_index as int, Some(bytes));
                &&& final(stream).pending()[asset_id@].chunks@ == slots
                &&& final(stream).pending()[asset_id@].asset_id == p[asset_id@].asset_id
                &&& final(stream).pending()[asset_id@].relative_cache_path == p[asset_id@].relative_cache_path
                &&& final(stream).pending()[asset_id@].byte_len == p[asset_id@].byte_len
                &&& final(stream).pending()[asset_id@].chunk_count == p[asset_id@].chunk_count
                &&& final(stream).pending()[asset_id@].counts_toward_bootstrap == p[asset_id@].counts_toward_bootstrap
                &&& forall|k: Seq<char>| k != asset_id@ && p.contains_key(k) ==> final(stream).pending()[k] == p[k]
                &&& if all_chunks_present(slots) {
                    r matches AssetChunkOutcome::Completed { relative_cache_path, payload }
                        && relative_cache_path@ == p[asset_id@].relative_cache_path@
                        && payload@ == joined_chunks(slots)
                } else {
                    r is Stored
                }
            }
        }),
{
    let i = match find_key(&stream.pending_assets, asset_id) {
        Some(i) => i,
        None => return AssetChunkOutcome::Ignored,
    };
    if stream.pending_assets[i].chunk_count != chunk_count || chunk_index >= chunk_count {
        return AssetChunkOutcome::Ignored;
    }
    proof {
        crate::keyed::lemma_key_pos(stream.pending_assets@, i as int);
        assert(stream.pending_assets@[i as int].wf());
    }
    let ghost p0 = stream.pending_assets@;
    let mut entry = stream.pending_assets.remove(i);
    let ghost e0 = entry;
    entry.chunks.set(chunk_index as usize, Some(bytes));
    let ghost slots = entry.chunks@;
    let mut complete = true;
    let mut k: usize = 0;
    while k < entry.chunks.len()
        invariant
            entry.chunks@ == slots,
            k <= slots.len(),
            complete == (forall|j: int| 0 <= j < k ==> #[trigger] slots[j] is Some),
        decreases entry.chunks.len() - k,
    {
        if entry.chunks[k].is_none() {
            complete = false;
        }
        k = k + 1;
    }
    let outcome = if complete {
        AssetChunkOutcome::Completed {
            relative_cache_path: entry.relative_cache_path.clone(),
            payload: join_chunks(&entry.chunks),
        }
    } else {
        AssetChunkOutcome::Stored
    };
    stream.pending_assets.insert(i, entry);
    proof {
        let n = stream.pending_assets@;
        assert(n =~= p0.update(i as int, entry));
        assert(keys_unique(n)) by {
            assert forall|a: int, b: int| 0 <= a < n.len() && 0 <= b < n.len() && a != b implies #[trigger] n[a].key_view()
                != #[trigger] n[b].key_view() by {
                assert(n[a].key_view() == p0[a].key_view());
                assert(n[b].key_view() == p0[b].key_view());
            }
        }
        assert forall|j: int| 0 <= j < n.len() implies #[trigger] n[j].wf() by {
            if j != i {
                assert(n[j] == p0[j]);
            }
        }
        assert forall|kk: Seq<char>| crate::keyed::has_key(n, kk) <==> crate::keyed::has_key(p0, kk) by {
            if crate::keyed::has_key(n, kk) {
                let q = choose|q: int| 0 <= q < n.len() && #[trigger] n[q].key_view() == kk;
                assert(p0[q].key_view() == kk);
            }
            if crate::keyed::has_key(p0, kk) {
                let q = choose|q: int| 0 <= q < p0.len() && #[trigger] p0[q].key_view() == kk;
                assert(n[q].key_view() == kk);
            }
        }
        assert(stream.pending().dom() =~= keyed_map(p0).dom());
        crate::keyed::lemma_key_pos(n, i as int);
        assert forall|kk: Seq<char>| kk != asset_id@ && keyed_map(p0).contains_key(kk) implies stream.pending()[kk]
            == keyed_map(p0)[kk] by {
            let q = choose|q: int| 0 <= q < p0.len() && #[trigger] p0[q].key_view() == kk;
            crate::keyed::lemma_key_pos(p0, q);
            assert(n[q] == p0[q]);
            crate::keyed::lemma_key_pos(n, q);
        }
    }
    outcome
}

/// What became of a completed asset after its checksum was checked.
#[derive(Debug)]
pub enum StreamedAssetFinish {
    /// The payload's checksum differs from the record's; the asset stays pending.
    ChecksumMismatch,
    /// The record is ready and the index updated; send this ack.
    Acked(AssetAck),
    /// No record describes the asset; nothing to confirm.
    Unrecorded,
}

/// Finishes a completed streamed asset whose payload hashes to `payload_sha256_hex`. With a
/// record whose checksum differs nothing changes. Otherwise a matching record becomes ready
/// and the cache index takes its version; then the asset stops being pending (its bytes count
/// toward the bootstrap when it belongs to it) and is no longer requested.
pub fn finish_streamed_asset(
    m: &mut LocalAssetManager,
    stream: &mut AssetStreamState,
    asset_id: &String,
    payload_sha256_hex: &String,
) -> (r: StreamedAssetFinish)
    requires
        old(m).wf(),
        old(stream).wf(),
    ensures
        final(m).wf(),
        final(stream).wf(),
        final(m).catalog_by_asset_id == old(m).catalog_by_asset_id,
        final(m).bootstrap_total_bytes == old(m).bootstrap_total_bytes,
        final(m).bootstrap_phase_complete == old(m).bootstrap_phase_complete,
        ({
            let rec = old(m).records();
            let has_rec = rec.contains_key(asset_id@);
            if has_rec && rec[asset_id@].sha256_hex@ != payload_sha256_hex@ {
                &&& r is ChecksumMismatch
                &&& *final(m) == *old(m)
                &&& *final(stream) == *old(stream)
            } else {
                &&& has_rec ==> {
                    &&& r matches StreamedAssetFinish::Acked(ack) && ack.asset_id@ == asset_id@
                        && ack.asset_version == rec[asset_id@].asset_version && ack.sha256_hex@ == rec[asset_id@].sha256_hex@
                    &&& final(m).records().dom() == rec.dom()
                    &&& final(m).records()[asset_id@].ready
                    &&& final(m).records()[asset_id@].relative_cache_path == rec[asset_id@].relative_cache_path
                    &&& final(m).records()[asset_id@].asset_version == rec[asset_id@].asset_version
                    &&& final(m).records()[asset_id@].sha256_hex == rec[asset_id@].sha256_hex
                    &&& forall|k: Seq<char>| k != asset_id@ && rec.contains_key(k) ==> final(m).records()[k] == rec[k]
                    &&& final(m).index().dom() == old(m).index().dom().insert(asset_id@)
                    &&& final(m).index()[asset_id@].asset_version == rec[asset_id@].asset_version
                    &&& final(m).index()[asset_id@].sha256_hex@ == rec[asset_id@].sha256_hex@
                    &&& forall|k: Seq<char>| k != asset_id@ && old(m).index().contains_key(k)
                        ==> final(m).index()[k] == old(m).index()[k]
                }
                &&& !has_rec ==> r is Unrecorded && final(m).records_by_asset_id == old(m).records_by_asset_id
                    && final(m).cache_index == old(m).cache_index
                &&& final(stream).pending() == old(stream).pending().remove(asset_id@)
                &&& final(m).bootstrap_ready_bytes == if old(stream).pending().contains_key(asset_id@)
                    && old(stream).pending()[asset_id@].counts_toward_bootstrap {
                    old(m).bootstrap_ready_bytes.saturating_add(old(stream).pending()[asset_id@].byte_len)
                } else {
                    old(m).bootstrap_ready_bytes
                }
                &&& forall|x: Seq<char>| str_views(final(stream).requested_asset_ids@).contains(x)
                    <==> (str_views(old(stream).requested_asset_ids@).contains(x) && x != asset_id@)
            }
        }),
{
    let mut result = StreamedAssetFinish::Unrecorded;
    match find_key(&m.records_by_asset_id, asset_id) {
        Some(i) => {
            if m.records_by_asset_id[i].sha256_hex != *payload_sha256_hex {
                return StreamedAssetFinish::ChecksumMismatch;
            }
            let ghost rec0 = m.records();
            let ghost r0 = m.records_by_asset_id@[i as int];
            let mut rec = m.records_by_asset_id.remove(i);
            rec.ready = true;
            let ack = AssetAck {
                asset_id: asset_id.clone(),
                asset_version: rec.asset_version,
                sha256_hex: rec.sha256_hex.clone(),
            };
            let idx_rec = AssetCacheIndexRecord {
                asset_id: asset_id.clone(),
                asset_version: rec.asset_version,
                sha256_hex: rec.sha256_hex.clone(),
            };
            m.records_by_asset_id.insert(i, rec);
            proof {
                let o = old(m).records_by_asset_id@;
                let n = m.records_by_asset_id@;
                assert(n =~= o.update(i as int, rec));
                assert(keys_unique(n)) by {
                    assert forall|a: int, b: int| 0 <= a < n.len() && 0 <= b < n.len() && a != b implies #[trigger] n[a].key_view()
                        != #[trigger] n[b].key_view() by {
                        assert(n[a].key_view() == o[a].key_view());
                        assert(n[b].key_view() == o[b].key_view());
                    }
                }
                assert forall|kk: Seq<char>| crate::keyed::has_key(n, kk) <==> crate::keyed::has_key(o, kk) by {
                    if crate::keyed::has_key(n, kk) {
                        let q = choose|q: int| 0 <= q < n.len() && #[trigger] n[q].key_view() == kk;
                        assert(o[q].key_view() == kk);
                    }
                    if crate::keyed::has_key(o, kk) {
                        let q = choose|q: int| 0 <= q < o.len() && #[trigger] o[q].key_view() == kk;
                        assert(n[q].key_view() == kk);
                    }
                }
                assert(m.records().dom() =~= rec0.dom());
                crate::keyed::lemma_key_pos(n, i as int);
                crate::keyed::lemma_key_pos(o, i as int);
                assert forall|kk: Seq<char>| kk != asset_id@ && rec0.contains_key(kk) implies m.records()[kk] == rec0[kk] by {
                    let q = choose|q: int| 0 <= q < o.len() && #[trigger] o[q].key_view() == kk;
                    crate::keyed::lemma_key_pos(o, q);
                    assert(n[q] == o[q]);
                    crate::keyed::lemma_key_pos(n, q);
                }
            }
            let ghost idx0 = m.index();
            upsert_keyed(&mut m.cache_index, idx_rec);
            assert(m.index().dom() =~= idx0.dom().insert(asset_id@));
            result = StreamedAssetFinish::Acked(ack);
        },
        None => {},
    }
    match find_key(&stream.pending_assets, asset_id) {
        Some(p) => {
            proof {
                crate::keyed::lemma_key_pos(stream.pending_assets@, p as int);
            }
            if stream.pending_assets[p].counts_toward_bootstrap {
                m.bootstrap_ready_bytes = m.bootstrap_ready_bytes.saturating_add(stream.pending_assets[p].byte_len);
            }
        },
        None => {},
    }
    let ghost pend0 = stream.pending_assets@;
    remove_keyed(&mut stream.pending_assets, asset_id);
    proof {
        assert forall|j: int| 0 <= j < stream.pending_assets@.len() implies #[trigger] stream.pending_assets@[j].wf() by {
            let kk = stream.pending_assets@[j].key_view();
            crate::keyed::lemma_key_pos(stream.pending_assets@, j);
            let q = crate::keyed::key_pos(pend0, kk);
            assert(keyed_map(pend0).contains_key(kk));
            assert(pend0[q].wf());
        }
    }
    remove_every_string(&mut stream.requested_asset_ids, asset_id);
    result
}

/// Whether no asset that belongs to the bootstrap is still being streamed.
pub open spec fn no_bootstrap_assets_pending(stream: &AssetStreamState) -> bool {
    forall|i: int| 0 <= i < stream.pending_assets@.len() ==> !(#[trigger] stream.pending_assets@[i]).counts_toward_bootstrap
}

/// Ends the bootstrap phase once a manifest was seen and no bootstrap asset is pending.
pub fn update_stream_bootstrap_phase(m: &mut LocalAssetManager, stream: &AssetStreamState) -> (completed_now: bool)
    ensures
        completed_now == (old(m).bootstrap_manifest_seen && !old(m).bootstrap_phase_complete
            && no_bootstrap_assets_pending(stream)),
        final(m).bootstrap_phase_complete == (old(m).bootstrap_phase_complete || completed_now),
        final(m).records_by_asset_id == old(m).records_by_asset_id,
        final(m).catalog_by_asset_id == old(m).catalog_by_asset_id,
        final(m).cache_index == old(m).cache_index,
        final(m).bootstrap_manifest_seen == old(m).bootstrap_manifest_seen,
        final(m).bootstrap_total_bytes == old(m).bootstrap_total_bytes,
        final(m).bootstrap_ready_bytes == old(m).bootstrap_ready_bytes,
        final(m).reload_generation == old(m).reload_generation,
        final(m).catalog_version == old(m).catalog_version,
        final(m).cache_index_loaded == old(m).cache_index_loaded,
{
    if !m.bootstrap_manifest_seen || m.bootstrap_phase_complete {
        return false;
    }
    let mut i: usize = 0;
    while i < stream.pending_assets.len()
        invariant
            i <= stream.pending_assets@.len(),
            forall|j: int| 0 <= j < i ==> !(#[trigger] stream.pending_assets@[j]).counts_toward_bootstrap,
        decreases stream.pending_assets.len() - i,
    {
        if stream.pending_assets[i].counts_toward_bootstrap {
            return false;
        }
        i = i + 1;
    }
    m.bootstrap_phase_complete = true;
    true
}

/// A streamed asset is complete exactly when every slot is filled, and its payload is then the
/// chunks joined in order: storing chunk `i` of `n` fills slot `i` and nothing else.
pub proof fn lemma_stream_chunk_fills_its_slot(slots: Seq<Option<Vec<u8>>>, i: int, bytes: Vec<u8>)
    requires
        0 <= i < slots.len(),
    ensures
        slots.update(i, Some(bytes))[i] == Some(bytes),
        forall|j: int| 0 <= j < slots.len() && j != i ==> slots.update(i, Some(bytes))[j] == slots[j],
        all_chunks_present(slots.update(i, Some(bytes))) <==> (forall|j: int| 0 <= j < slots.len() && j != i
            ==> #[trigger] slots[j] is Some),
{
    let u = slots.update(i, Some(bytes));
    if forall|j: int| 0 <= j < slots.len() && j != i ==> #[trigger] slots[j] is Some {
        assert forall|j: int| 0 <= j < u.len() implies #[trigger] u[j] is Some by {
            if j != i {
                assert(slots[j] is Some);
            }
        }
    }
    if all_chunks_present(u) {
        assert forall|j: int| 0 <= j < slots.len() && j != i implies #[trigger] slots[j] is Some by {
            assert(u[j] is Some);
        }
    }
}

/// The streaming indicator shows once the bootstrap is over while assets are still streamed.
pub fn should_show_runtime_stream_indicator(m: &LocalAssetManager, stream: &AssetStreamState) -> (r: bool)
    ensures
        r == (m.bootstrap_phase_complete && stream.pending_assets@.len() > 0),
{
    m.bootstrap_complete() && stream.pending_count() > 0
}


/// Critical assets are requested again at most this often, in milliseconds.
pub const CRITICAL_ASSET_REQUEST_INTERVAL_MS: u64 = 2000;

/// What a request for an asset says, given what the cache index knows of it.
pub open spec fn request_matches(m: &LocalAssetManager, r: RequestedAsset, asset_id: Seq<char>) -> bool {
    &&& r.asset_id@ == asset_id
    &&& m.index().contains_key(asset_id) ==> (r.known_asset_version == Some(m.index()[asset_id].asset_version)
        && (r.known_sha256_hex matches Some(s) && s@ == m.index()[asset_id].sha256_hex@))
    &&& !m.index().contains_key(asset_id) ==> r.known_asset_version is None && r.known_sha256_hex is None
}

/// The ids whose file is not on disk, in order.
pub open spec fn missing_ids(ids: Seq<Seq<char>>, present: Seq<bool>) -> Seq<Seq<char>>
    decreases ids.len(),
{
    if ids.len() == 0 || present.len() != ids.len() {
        Seq::empty()
    } else {
        let before = missing_ids(ids.drop_last(), present.drop_last());
        if present.last() { before } else { before.push(ids.last()) }
    }
}

/// Requests the critical assets whose file is missing (`present_on_disk` says, per id, whether
/// it is on disk), at most once every two seconds; the time of the request is recorded.
pub fn ensure_critical_assets_available_system(
    last_request_at_ms: &mut u64,
    critical_asset_ids: &Vec<String>,
    present_on_disk: &Vec<bool>,
    m: &LocalAssetManager,
    now_ms: u64,
) -> (r: Vec<RequestedAsset>)
    requires
        present_on_disk@.len() == critical_asset_ids@.len(),
        m.wf(),
    ensures
        ({
            let missing = missing_ids(str_views(critical_asset_ids@), present_on_disk@);
            if missing.len() == 0 || (now_ms as int) - (*old(last_request_at_ms) as int) < CRITICAL_ASSET_REQUEST_INTERVAL_MS as int {
                r@.len() == 0 && *final(last_request_at_ms) == *old(last_request_at_ms)
            } else {
                &&& *final(last_request_at_ms) == now_ms
                &&& r@.len() == missing.len()
                &&& forall|k: int| 0 <= k < r@.len() ==> request_matches(m, #[trigger] r@[k], missing[k])
            }
        }),
{
    let ghost ids = str_views(critical_asset_ids@);
    let ghost pr = present_on_disk@;
    let mut missing: Vec<String> = Vec::new();
    let mut i: usize = 0;
    assert(ids.take(0) =~= Seq::<Seq<char>>::empty());
    assert(pr.take(0) =~= Seq::<bool>::empty());
    while i < critical_asset_ids.len()
        invariant
            ids == str_views(critical_asset_ids@),
            pr == present_on_disk@,
            pr.len() == ids.len(),
            i <= ids.len(),
            str_views(missing@) == missing_ids(ids.take(i as int), pr.take(i as int)),
        decreases critical_asset_ids.len() - i,
    {
        assert(ids.take(i + 1).drop_last() =~= ids.take(i as int));
        assert(pr.take(i + 1).drop_last() =~= pr.take(i as int));
        assert(ids.take(i + 1).last() == critical_asset_ids@[i as int]@);
        assert(pr.take(i + 1).last() == pr[i as int]);
        if !present_on_disk[i] {
            let ghost before = missing@;
            missing.push(critical_asset_ids[i].clone());
            assert(str_views(missing@) =~= str_views(before).push(critical_asset_ids@[i as int]@));
        }
        i = i + 1;
    }
    assert(ids.take(i as int) =~= ids);
    assert(pr.take(i as int) =~= pr);
    let mut r: Vec<RequestedAsset> = Vec::new();
    if missing.len() == 0 {
        return r;
    }
    if now_ms < *last_request_at_ms || now_ms - *last_request_at_ms < CRITICAL_ASSET_REQUEST_INTERVAL_MS {
        return r;
    }
    *last_request_at_ms = now_ms;
    let mut k: usize = 0;
    while k < missing.len()
        invariant
            k <= missing@.len(),
            m.wf(),
            r@.len() == k,
            forall|j: int| 0 <= j < k ==> request_matches(m, #[trigger] r@[j], str_views(missing@)[j]),
        decreases missing.len() - k,
    {
        let q = requested_asset_for(m, &missing[k]);
        r.push(q);
        k = k + 1;
    }
    r
}

/// The cache path of a critical asset: its record's, else the built-in path of the default
/// corvette model, starfield shader or space background shader.
pub fn critical_asset_cache_path(
    asset_id: &String,
    m: &LocalAssetManager,
    corvette_asset_id: &String,
    starfield_shader_asset_id: &String,
    space_background_shader_asset_id: &String,
) -> (r: Option<String>)
    requires
        m.wf(),
    ensures
        m.records().contains_key(asset_id@) ==> (r matches Some(p) && p@ == m.records()[asset_id@].relative_cache_path@),
        !m.records().contains_key(asset_id@) ==> ov(r) == if asset_id@ == corvette_asset_id@ {
            Some("models/corvette_01/corvette_01.gltf"@)
        } else if asset_id@ == starfield_shader_asset_id@ {
            Some("shaders/starfield.wgsl"@)
        } else if asset_id@ == space_background_shader_asset_id@ {
            Some("shaders/simple_space_background.wgsl"@)
        } else {
            None
        },
{
    match find_key(&m.records_by_asset_id, asset_id) {
        Some(i) => Some(m.records_by_asset_id[i].relative_cache_path.clone()),
        None => {
            if *asset_id == *corvette_asset_id {
                Some("models/corvette_01/corvette_01.gltf".to_string())
            } else if *asset_id == *starfield_shader_asset_id {
                Some("shaders/starfield.wgsl".to_string())
            } else if *asset_id == *space_background_shader_asset_id {
                Some("shaders/simple_space_background.wgsl".to_string())
            } else {
                None
            }
        },
    }
}


} // verus!
