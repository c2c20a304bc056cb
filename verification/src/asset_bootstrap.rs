//! The asset bootstrap over HTTP: the sums and records it computes from the gateway's
//! manifest, and how its result is taken into the asset manager.

use vstd::prelude::*;
use crate::assets::{RuntimeAssetCatalogRecord, catalog_wf};
use crate::asset_cache::{LocalAssetManager, LocalAssetRecord, AssetCacheIndexRecord};
use crate::keyed::{Keyed, keys_unique, keyed_map, upsert_keyed};
use crate::session::{AssetBootstrapRequestState, asset_bootstrap_failed_status};
use crate::numparse::{format_decimal, decimal_text};
use crate::text::concat_str;

verus! {

impl Keyed for RuntimeAssetCatalogRecord {
    open spec fn key_view(&self) -> Seq<char> {
        self.asset_id@
    }

    fn key(&self) -> (r: &String) {
        &self.asset_id
    }
}

/// An asset the client must have before entering the world.
#[derive(Debug)]
pub struct AssetBootstrapRequiredAsset {
    pub asset_id: String,
    pub url: String,
    pub relative_cache_path: String,
    pub byte_len: u64,
    pub sha256_hex: String,
}

/// The gateway's bootstrap manifest.
#[derive(Debug)]
pub struct AssetBootstrapManifest {
    pub catalog: Vec<RuntimeAssetCatalogRecord>,
    pub required_assets: Vec<AssetBootstrapRequiredAsset>,
}

/// What the bootstrap learned of a catalog asset.
#[derive(Debug)]
pub struct AssetBootstrapRecord {
    pub asset_id: String,
    pub relative_cache_path: String,
    pub content_type: String,
    pub byte_len: u64,
    pub asset_version: u64,
    pub sha256_hex: String,
    pub ready: bool,
}

/// The outcome of a successful bootstrap.
#[derive(Debug)]
pub struct AssetBootstrapResult {
    pub manifest: AssetBootstrapManifest,
    pub records: Vec<AssetBootstrapRecord>,
    pub cache_index: Vec<AssetCacheIndexRecord>,
    pub bootstrap_total_bytes: u64,
    pub bootstrap_ready_bytes: u64,
}

/// The saturating sum of the sizes of the required assets.
pub open spec fn required_bytes(r: Seq<AssetBootstrapRequiredAsset>) -> u64
    decreases r.len(),
{
    if r.len() == 0 {
        0
    } else {
        required_bytes(r.drop_last()).saturating_add(r.last().byte_len)
    }
}

/// The saturating sum of the sizes of the required assets: both the total and, once every
/// required asset is present, the ready bytes of the bootstrap.
pub fn bootstrap_required_bytes(required: &Vec<AssetBootstrapRequiredAsset>) -> (r: u64)
    ensures
        r == required_bytes(required@),
{
    let mut total: u64 = 0;
    let mut i: usize = 0;
    while i < required.len()
        invariant
            i <= required@.len(),
            total == required_bytes(required@.take(i as int)),
        decreases required.len() - i,
    {
        assert(required@.take(i + 1).drop_last() =~= required@.take(i as int));
        total = total.saturating_add(required[i].byte_len);
        i = i + 1;
    }
    assert(required@.take(i as int) =~= required@);
    total
}

/// The ids of the required assets.
pub open spec fn required_ids(r: Seq<AssetBootstrapRequiredAsset>) -> Seq<Seq<char>> {
    r.map_values(|a: AssetBootstrapRequiredAsset| a.asset_id@)
}

/// Whether an asset is required.
fn is_required(required: &Vec<AssetBootstrapRequiredAsset>, id: &String) -> (r: bool)
    ensures
        r == required_ids(required@).contains(id@),
{
    let mut i: usize = 0;
    while i < required.len()
        invariant
            i <= required@.len(),
            forall|j: int| 0 <= j < i ==> #[trigger] required@[j].asset_id@ != id@,
        decreases required.len() - i,
    {
        if required[i].asset_id == *id {
            assert(required_ids(required@)[i as int] == id@);
            return true;
        }
        i = i + 1;
    }
    proof {
        if required_ids(required@).contains(id@) {
            let k = choose|k: int| 0 <= k < required_ids(required@).len() && required_ids(required@)[k] == id@;
            assert(required@[k].asset_id@ == id@);
        }
    }
    false
}

/// The bootstrap's records of the catalog: one per entry, in order, ready when a valid copy
/// was cached (`catalog_ready`) or the asset is required (every required asset is present once
/// the bootstrap succeeds). `versions` holds each entry's asset version.
pub fn build_bootstrap_records(
    catalog: &Vec<RuntimeAssetCatalogRecord>,
    catalog_ready: &Vec<bool>,
    versions: &Vec<u64>,
    required: &Vec<AssetBootstrapRequiredAsset>,
) -> (r: Vec<AssetBootstrapRecord>)
    requires
        catalog_ready@.len() == catalog@.len(),
        versions@.len() == catalog@.len(),
    ensures
        r@.len() == catalog@.len(),
        forall|i: int| 0 <= i < catalog@.len() ==> {
            &&& (#[trigger] r@[i]).asset_id@ == catalog@[i].asset_id@
            &&& r@[i].relative_cache_path@ == catalog@[i].relative_cache_path@
            &&& r@[i].content_type@ == catalog@[i].content_type@
            &&& r@[i].byte_len == catalog@[i].byte_len
            &&& r@[i].asset_version == versions@[i]
            &&& r@[i].sha256_hex@ == catalog@[i].sha256_hex@
            &&& r@[i].ready == (catalog_ready@[i] || required_ids(required@).contains(catalog@[i].asset_id@))
        },
{
    let mut out: Vec<AssetBootstrapRecord> = Vec::new();
    let mut i: usize = 0;
    while i < catalog.len()
        invariant
            catalog_ready@.len() == catalog@.len(),
            versions@.len() == catalog@.len(),
            i <= catalog@.len(),
            out@.len() == i,
            forall|k: int| 0 <= k < i ==> {
                &&& (#[trigger] out@[k]).asset_id@ == catalog@[k].asset_id@
                &&& out@[k].relative_cache_path@ == catalog@[k].relative_cache_path@
                &&& out@[k].content_type@ == catalog@[k].content_type@
                &&& out@[k].byte_len == catalog@[k].byte_len
                &&& out@[k].asset_version == versions@[k]
                &&& out@[k].sha256_hex@ == catalog@[k].sha256_hex@
                &&& out@[k].ready == (catalog_ready@[k] || required_ids(required@).contains(catalog@[k].asset_id@))
            },
        decreases catalog.len() - i,
    {
        let e = &catalog[i];
        let ready = catalog_ready[i] || is_required(required, &e.asset_id);
        out.push(AssetBootstrapRecord {
            asset_id: e.asset_id.clone(),
            relative_cache_path: e.relative_cache_path.clone(),
            content_type: e.content_type.clone(),
            byte_len: e.byte_len,
            asset_version: versions[i],
            sha256_hex: e.sha256_hex.clone(),
            ready,
        });
        i = i + 1;
    }
    out
}

/// Keyed items inserted in order into an empty list: a later item wins over an earlier one.
pub open spec fn keyed_fold<T: Keyed>(s: Seq<T>) -> Map<Seq<char>, T>
    decreases s.len(),
{
    if s.len() == 0 {
        Map::empty()
    } else {
        keyed_fold(s.drop_last()).insert(s.last().key_view(), s.last())
    }
}

/// The items without repeated keys, a later one replacing an earlier one.
pub fn dedup_keyed<T: Keyed>(items: Vec<T>) -> (r: Vec<T>)
    ensures
        keys_unique(r@),
        keyed_map(r@) == keyed_fold(items@),
{
    let ghost orig = items@;
    let mut items = items;
    let n = items.len();
    assert(orig.len() == n);
    let mut out: Vec<T> = Vec::new();
    assert(keyed_map(out@) =~= Map::<Seq<char>, T>::empty());
    let mut i: usize = 0;
    assert(orig.take(0) =~= Seq::<T>::empty());
    while items.len() > 0
        invariant
            i <= orig.len(),
            orig.len() <= usize::MAX,
            items@ == orig.subrange(i as int, orig.len() as int),
            keys_unique(out@),
            keyed_map(out@) == keyed_fold(orig.take(i as int)),
        decreases items.len(),
    {
        let item = items.remove(0);
        assert(item == orig[i as int]);
        assert(orig.take(i + 1).drop_last() =~= orig.take(i as int));
        upsert_keyed(&mut out, item);
        i = i + 1;
        assert(items@ =~= orig.subrange(i as int, orig.len() as int));
    }
    assert(orig.take(i as int) =~= orig);
    out
}

/// Records the version of every required asset in the cache index.
pub fn index_required_assets(
    cache_index: &mut Vec<AssetCacheIndexRecord>,
    required: &Vec<AssetBootstrapRequiredAsset>,
    versions: &Vec<u64>,
)
    requires
        keys_unique(old(cache_index)@),
        versions@.len() == required@.len(),
    ensures
        keys_unique(final(cache_index)@),
        forall|k: Seq<char>| keyed_map(final(cache_index)@).contains_key(k) <==> (keyed_map(old(cache_index)@).contains_key(k)
            || required_ids(required@).contains(k)),
        forall|i: int| 0 <= i < required@.len() && (forall|j: int| i < j < required@.len() ==> #[trigger] required@[j].asset_id@
            != required@[i].asset_id@) ==> {
            let e = keyed_map(final(cache_index)@)[#[trigger] required@[i].asset_id@];
            &&& e.asset_version == versions@[i]
            &&& e.sha256_hex@ == required@[i].sha256_hex@
        },
        forall|k: Seq<char>| !required_ids(required@).contains(k) && keyed_map(old(cache_index)@).contains_key(k)
            ==> keyed_map(final(cache_index)@)[k] == keyed_map(old(cache_index)@)[k],
{
    let ghost m0 = keyed_map(cache_index@);
    let mut i: usize = 0;
    while i < required.len()
        invariant
            versions@.len() == required@.len(),
            i <= required@.len(),
            keys_unique(cache_index@),
            forall|k: Seq<char>| keyed_map(cache_index@).contains_key(k) <==> (m0.contains_key(k) || required_ids(
                required@.take(i as int),
            ).contains(k)),
            forall|a: int| 0 <= a < i && (forall|j: int| a < j < i ==> #[trigger] required@[j].asset_id@
                != required@[a].asset_id@) ==> {
                let e = keyed_map(cache_index@)[#[trigger] required@[a].asset_id@];
                &&& e.asset_version == versions@[a]
                &&& e.sha256_hex@ == required@[a].sha256_hex@
            },
            forall|k: Seq<char>| !required_ids(required@.take(i as int)).contains(k) && m0.contains_key(k)
                ==> keyed_map(cache_index@)[k] == m0[k],
        decreases required.len() - i,
    {
        let ghost before = keyed_map(cache_index@);
        let ghost ids_before = required_ids(required@.take(i as int));
        let r = &required[i];
        upsert_keyed(
            cache_index,
            AssetCacheIndexRecord { asset_id: r.asset_id.clone(), asset_version: versions[i], sha256_hex: r.sha256_hex.clone() },
        );
        proof {
            let ids_after = required_ids(required@.take(i + 1));
            assert(ids_after =~= ids_before.push(r.asset_id@));
            assert forall|k: Seq<char>| ids_after.contains(k) <==> (ids_before.contains(k) || k == r.asset_id@) by {
                if ids_after.contains(k) {
                    let q = choose|q: int| 0 <= q < ids_after.len() && ids_after[q] == k;
                    if q < ids_before.len() {
                        assert(ids_before[q] == k);
                    }
                }
                if ids_before.contains(k) {
                    let q = choose|q: int| 0 <= q < ids_before.len() && ids_before[q] == k;
                    assert(ids_after[q] == k);
                }
                if k == r.asset_id@ {
                    assert(ids_after[ids_before.len() as int] == k);
                }
            }
            assert forall|k: Seq<char>| keyed_map(cache_index@).contains_key(k) <==> (m0.contains_key(k)
                || ids_after.contains(k)) by {
                assert(before.contains_key(k) <==> (m0.contains_key(k) || ids_before.contains(k)));
            }
        }
        i = i + 1;
    }
    assert(required@.take(i as int) =~= required@);
}


/// How the bootstrap obtained a required asset.
#[derive(Debug)]
pub enum RequiredAssetFetch {
    /// A valid copy was already in the cache.
    Cached,
    /// It was downloaded; the SHA-256 digest of the payload, in hex.
    Downloaded { payload_sha256_hex: String },
}

/// The error when a downloaded payload does not have the digest the manifest gives.
pub open spec fn checksum_mismatch_text(asset_id: Seq<char>, expected: Seq<char>, got: Seq<char>) -> Seq<char> {
    "asset checksum mismatch asset_id="@ + asset_id + " expected="@ + expected + " got="@ + got
}

/// Whether a fetch of a required asset brought a payload with another digest.
pub open spec fn fetch_mismatch(r: AssetBootstrapRequiredAsset, f: RequiredAssetFetch) -> bool {
    f matches RequiredAssetFetch::Downloaded { payload_sha256_hex: p } && p@ != r.sha256_hex@
}

/// The error of a mismatching fetch.
pub open spec fn fetch_mismatch_text(r: AssetBootstrapRequiredAsset, f: RequiredAssetFetch) -> Seq<char> {
    match f {
        RequiredAssetFetch::Downloaded { payload_sha256_hex: p } => checksum_mismatch_text(r.asset_id@, r.sha256_hex@, p@),
        RequiredAssetFetch::Cached => Seq::empty(),
    }
}

/// Checks a downloaded payload against the manifest before it is written to the cache: it is
/// written only when its digest is the one the manifest gives, else the bootstrap fails.
pub fn verify_downloaded_asset(required: &AssetBootstrapRequiredAsset, payload_sha256_hex: &String) -> (r: Result<(), String>)
    ensures
        r is Ok <==> payload_sha256_hex@ == required.sha256_hex@,
        r matches Err(e) ==> e@ == checksum_mismatch_text(required.asset_id@, required.sha256_hex@, payload_sha256_hex@),
{
    if *payload_sha256_hex == required.sha256_hex {
        Ok(())
    } else {
        let m0 = concat_str("asset checksum mismatch asset_id=", required.asset_id.as_str());
        let m1 = concat_str(m0.as_str(), " expected=");
        let m2 = concat_str(m1.as_str(), required.sha256_hex.as_str());
        let m3 = concat_str(m2.as_str(), " got=");
        let m4 = concat_str(m3.as_str(), payload_sha256_hex.as_str());
        Err(m4)
    }
}

/// Builds the bootstrap's result from the manifest and what was fetched. The required assets
/// are checked in order and the first payload with a wrong digest fails the bootstrap with its
/// mismatch error. Otherwise both the total and the ready bytes are the saturating sum of the
/// required sizes, the records are those of `build_bootstrap_records` and the cache index
/// records each required asset's version (`required_versions`) and digest.
pub fn assemble_asset_bootstrap_result(
    manifest: AssetBootstrapManifest,
    catalog_ready: &Vec<bool>,
    catalog_versions: &Vec<u64>,
    fetches: &Vec<RequiredAssetFetch>,
    required_versions: &Vec<u64>,
    cache_index: Vec<AssetCacheIndexRecord>,
) -> (r: Result<AssetBootstrapResult, String>)
    requires
        catalog_ready@.len() == manifest.catalog@.len(),
        catalog_versions@.len() == manifest.catalog@.len(),
        fetches@.len() == manifest.required_assets@.len(),
        required_versions@.len() == manifest.required_assets@.len(),
        keys_unique(cache_index@),
    ensures
        r is Err <==> exists|i: int| 0 <= i < fetches@.len() && fetch_mismatch(manifest.required_assets@[i], #[trigger] fetches@[i]),
        r matches Err(e) ==> exists|i: int| 0 <= i < fetches@.len() && fetch_mismatch(manifest.required_assets@[i], #[trigger] fetches@[i])
            && (forall|j: int| 0 <= j < i ==> !fetch_mismatch(manifest.required_assets@[j], #[trigger] fetches@[j]))
            && e@ == fetch_mismatch_text(manifest.required_assets@[i], fetches@[i]),
        r matches Ok(p) ==> {
            let required = manifest.required_assets@;
            let catalog = manifest.catalog@;
            &&& p.manifest == manifest
            &&& p.bootstrap_total_bytes == required_bytes(required)
            &&& p.bootstrap_ready_bytes == required_bytes(required)
            &&& p.records@.len() == catalog.len()
            &&& forall|i: int| 0 <= i < catalog.len() ==> {
                &&& (#[trigger] p.records@[i]).asset_id@ == catalog[i].asset_id@
                &&& p.records@[i].relative_cache_path@ == catalog[i].relative_cache_path@
                &&& p.records@[i].content_type@ == catalog[i].content_type@
                &&& p.records@[i].byte_len == catalog[i].byte_len
                &&& p.records@[i].asset_version == catalog_versions@[i]
                &&& p.records@[i].sha256_hex@ == catalog[i].sha256_hex@
                &&& p.records@[i].ready == (catalog_ready@[i] || required_ids(required).contains(catalog[i].asset_id@))
            }
            &&& keys_unique(p.cache_index@)
            &&& forall|k: Seq<char>| keyed_map(p.cache_index@).contains_key(k) <==> (keyed_map(cache_index@).contains_key(k)
                || required_ids(required).contains(k))
            &&& forall|i: int| 0 <= i < required.len() && (forall|j: int| i < j < required.len() ==> #[trigger] required[j].asset_id@
                != required[i].asset_id@) ==> {
                let e = keyed_map(p.cache_index@)[#[trigger] required[i].asset_id@];
                &&& e.asset_version == required_versions@[i]
                &&& e.sha256_hex@ == required[i].sha256_hex@
            }
            &&& forall|k: Seq<char>| !required_ids(required).contains(k) && keyed_map(cache_index@).contains_key(k)
                ==> keyed_map(p.cache_index@)[k] == keyed_map(cache_index@)[k]
        },
{
    let mut i: usize = 0;
    while i < fetches.len()
        invariant
            fetches@.len() == manifest.required_assets@.len(),
            i <= fetches@.len(),
            forall|j: int| 0 <= j < i ==> !fetch_mismatch(manifest.required_assets@[j], #[trigger] fetches@[j]),
        decreases fetches.len() - i,
    {
        match &fetches[i] {
            RequiredAssetFetch::Cached => {},
            RequiredAssetFetch::Downloaded { payload_sha256_hex } => {
                match verify_downloaded_asset(&manifest.required_assets[i], payload_sha256_hex) {
                    Ok(()) => {},
                    Err(e) => {
                        assert(fetch_mismatch(manifest.required_assets@[i as int], fetches@[i as int]));
                        return Err(e);
                    },
                }
            },
        }
        i = i + 1;
    }
    let total = bootstrap_required_bytes(&manifest.required_assets);
    let records = build_bootstrap_records(&manifest.catalog, catalog_ready, catalog_versions, &manifest.required_assets);
    let mut index = cache_index;
    index_required_assets(&mut index, &manifest.required_assets, required_versions);
    assert forall|k: Seq<char>| keyed_map(index@).contains_key(k) <==> (keyed_map(cache_index@).contains_key(k)
                || required_ids(manifest.required_assets@).contains(k)) by {
        let b1 = keyed_map(index@).contains_key(k);
        let b2 = keyed_map(cache_index@).contains_key(k);
        let b3 = required_ids(manifest.required_assets@).contains(k);
    }
    let res = AssetBootstrapResult {
        manifest,
        records,
        cache_index: index,
        bootstrap_total_bytes: total,
        bootstrap_ready_bytes: total,
    };
    Ok(res)
}

/// The catalog's entries keep their ids unique exactly when the keyed view says so.
pub proof fn lemma_catalog_wf_is_keys_unique(cat: Seq<RuntimeAssetCatalogRecord>)
    ensures
        catalog_wf(cat) <==> keys_unique(cat),
{
    if catalog_wf(cat) {
        assert forall|i: int, j: int| 0 <= i < cat.len() && 0 <= j < cat.len() && i != j implies #[trigger] cat[i].key_view()
            != #[trigger] cat[j].key_view() by {
            assert(cat[i].asset_id@ != cat[j].asset_id@);
        }
    }
    if keys_unique(cat) {
        assert forall|i: int, j: int| 0 <= i < cat.len() && 0 <= j < cat.len() && i != j implies #[trigger] cat[i].asset_id@
            != #[trigger] cat[j].asset_id@ by {
            assert(cat[i].key_view() != cat[j].key_view());
        }
    }
}

/// The manager's record of an asset that the bootstrap described: stored in one chunk.
pub open spec fn local_record_of(r: AssetBootstrapRecord) -> LocalAssetRecord {
    LocalAssetRecord {
        asset_id: r.asset_id,
        relative_cache_path: r.relative_cache_path,
        content_type: r.content_type,
        byte_len: r.byte_len,
        chunk_count: 1,
        asset_version: r.asset_version,
        sha256_hex: r.sha256_hex,
        ready: r.ready,
    }
}

/// The records after storing the bootstrap's records in order, each replacing the record of
/// its asset.
pub open spec fn records_after(m: Map<Seq<char>, LocalAssetRecord>, recs: Seq<AssetBootstrapRecord>) -> Map<Seq<char>, LocalAssetRecord>
    decreases recs.len(),
{
    if recs.len() == 0 {
        m
    } else {
        records_after(m, recs.drop_last()).insert(recs.last().asset_id@, local_record_of(recs.last()))
    }
}

/// What taking the bootstrap result asks of the rest of the client.
#[derive(Debug)]
pub struct AssetBootstrapApplied {
    pub status: String,
    /// An error dialog: title and message.
    pub error_dialog: Option<(String, String)>,
}

/// Takes the result of the asset bootstrap into the manager. On success the request is
/// completed, the manifest seen, the bootstrap complete with the result's byte counts, the
/// cache index and catalog replaced (a later entry of an id winning), and each record stored
/// (one chunk). On failure the request failed, the manifest counts as seen and the bootstrap
/// is not complete.
pub fn apply_asset_bootstrap_result(
    request_state: &mut AssetBootstrapRequestState,
    asset_manager: &mut LocalAssetManager,
    result: Result<AssetBootstrapResult, String>,
) -> (r: AssetBootstrapApplied)
    requires
        old(asset_manager).wf(),
    ensures
        final(asset_manager).wf(),
        !final(request_state).pending,
        final(asset_manager).bootstrap_manifest_seen,
        match result {
            Ok(p) => {
                &&& final(request_state).completed && !final(request_state).failed
                &&& final(asset_manager).bootstrap_total_bytes == p.bootstrap_total_bytes
                &&& final(asset_manager).bootstrap_ready_bytes == p.bootstrap_ready_bytes
                &&& final(asset_manager).bootstrap_phase_complete
                &&& final(asset_manager).cache_index_loaded
                &&& final(asset_manager).index() == keyed_fold(p.cache_index@)
                &&& keyed_map(final(asset_manager).catalog()) == keyed_fold(p.manifest.catalog@)
                &&& final(asset_manager).records() == records_after(old(asset_manager).records(), p.records@)
                &&& r.status@ == "Asset bootstrap complete ("@ + decimal_text(p.manifest.required_assets@.len()) + " required assets)."@
                &&& r.error_dialog is None
            },
            Err(e) => {
                &&& !final(request_state).completed && final(request_state).failed
                &&& !final(asset_manager).bootstrap_phase_complete
                &&& final(asset_manager).records_by_asset_id == old(asset_manager).records_by_asset_id
                &&& final(asset_manager).catalog_by_asset_id == old(asset_manager).catalog_by_asset_id
                &&& final(asset_manager).cache_index == old(asset_manager).cache_index
                &&& r.status@ == "Asset bootstrap failed: "@ + e@
                &&& r.error_dialog matches Some((t, m)) && t@ == "Asset Bootstrap Failed"@ && m@ == e@
            },
        },
{
    request_state.pending = false;
    match result {
        Ok(payload) => {
            request_state.completed = true;
            request_state.failed = false;
            asset_manager.bootstrap_manifest_seen = true;
            asset_manager.bootstrap_total_bytes = payload.bootstrap_total_bytes;
            asset_manager.bootstrap_ready_bytes = payload.bootstrap_ready_bytes;
            asset_manager.bootstrap_phase_complete = true;
            asset_manager.cache_index = dedup_keyed(payload.cache_index);
            asset_manager.cache_index_loaded = true;
            let required_count = payload.manifest.required_assets.len();
            asset_manager.catalog_by_asset_id = dedup_keyed(payload.manifest.catalog);
            proof {
                lemma_catalog_wf_is_keys_unique(asset_manager.catalog_by_asset_id@);
            }
            let ghost recs = payload.records@;
            let ghost rec0 = asset_manager.records();
            let ghost idx = asset_manager.cache_index;
            let ghost cat = asset_manager.catalog_by_asset_id;
            let total_bytes = payload.bootstrap_total_bytes;
            let ready_bytes = payload.bootstrap_ready_bytes;
            let mut records = payload.records;
            let mut i: usize = 0;
            let n = records.len();
            assert(recs.take(0) =~= Seq::<AssetBootstrapRecord>::empty());
            while records.len() > 0
                invariant
                    i <= recs.len(),
                    recs.len() == n,
                    records@ == recs.subrange(i as int, recs.len() as int),
                    asset_manager.wf(),
                    asset_manager.bootstrap_manifest_seen,
                    asset_manager.bootstrap_phase_complete,
                    asset_manager.cache_index_loaded,
                    asset_manager.bootstrap_total_bytes == total_bytes,
                    asset_manager.bootstrap_ready_bytes == ready_bytes,
                    asset_manager.cache_index == idx,
                    asset_manager.catalog_by_asset_id == cat,
                    asset_manager.records() == records_after(rec0, recs.take(i as int)),
                decreases records.len(),
            {
                let rec = records.remove(0);
                assert(rec == recs[i as int]);
                let ghost before = asset_manager.records();
                upsert_keyed(
                    &mut asset_manager.records_by_asset_id,
                    LocalAssetRecord {
                        asset_id: rec.asset_id,
                        relative_cache_path: rec.relative_cache_path,
                        content_type: rec.content_type,
                        byte_len: rec.byte_len,
                        chunk_count: 1,
                        asset_version: rec.asset_version,
                        sha256_hex: rec.sha256_hex,
                        ready: rec.ready,
                    },
                );
                assert(recs.take(i + 1).drop_last() =~= recs.take(i as int));
                assert(recs.take(i + 1).last() == recs[i as int]);
                i = i + 1;
                assert(records@ =~= recs.subrange(i as int, recs.len() as int));
            }
            assert(recs.take(i as int) =~= recs);
            let count = format_decimal(required_count as u64);
            let mut status = concat_str("Asset bootstrap complete (", count.as_str());
            status.append(" required assets).");
            AssetBootstrapApplied { status, error_dialog: None }
        },
        Err(err) => {
            request_state.completed = false;
            request_state.failed = true;
            asset_manager.bootstrap_manifest_seen = true;
            asset_manager.bootstrap_phase_complete = false;
            let status = asset_bootstrap_failed_status(&err);
            AssetBootstrapApplied { status, error_dialog: Some(("Asset Bootstrap Failed".to_string(), err)) }
        },
    }
}

} // verus!
