//! The local asset manager: what is cached, what the catalog offers, and what to fetch next.

use vstd::prelude::*;
use crate::assets::{
    RuntimeAssetCatalogRecord, catalog_wf, in_catalog, catalog_pos, catalog_deps, str_views,
    find_catalog_entry, contains_string,
};
use crate::keyed::{Keyed, keys_unique, keyed_map, find_key};
use crate::text::{has_suffix, ends_with, concat_str, str_eq};

verus! {

/// A cached asset file.
#[derive(Debug)]
pub struct LocalAssetRecord {
    pub asset_id: String,
    pub relative_cache_path: String,
    pub content_type: String,
    pub byte_len: u64,
    pub chunk_count: u32,
    pub asset_version: u64,
    pub sha256_hex: String,
    /// The file is complete and checked.
    pub ready: bool,
}

impl Keyed for LocalAssetRecord {
    open spec fn key_view(&self) -> Seq<char> {
        self.asset_id@
    }

    fn key(&self) -> (r: &String) {
        &self.asset_id
    }
}

/// An entry of the on-disk cache index.
#[derive(Debug)]
pub struct AssetCacheIndexRecord {
    pub asset_id: String,
    pub asset_version: u64,
    pub sha256_hex: String,
}

impl Keyed for AssetCacheIndexRecord {
    open spec fn key_view(&self) -> Seq<char> {
        self.asset_id@
    }

    fn key(&self) -> (r: &String) {
        &self.asset_id
    }
}

/// What the client knows of runtime assets: cached files, the catalog and bootstrap progress.
#[derive(Debug)]
pub struct LocalAssetManager {
    pub records_by_asset_id: Vec<LocalAssetRecord>,
    pub catalog_by_asset_id: Vec<RuntimeAssetCatalogRecord>,
    pub catalog_version: Option<String>,
    pub cache_index: Vec<AssetCacheIndexRecord>,
    pub cache_index_loaded: bool,
    pub bootstrap_manifest_seen: bool,
    pub bootstrap_phase_complete: bool,
    pub bootstrap_total_bytes: u64,
    pub bootstrap_ready_bytes: u64,
    pub reload_generation: u64,
}

/// Where a cached copy of an asset is looked for, and the checksum it must have.
#[derive(Debug)]
pub struct CacheLookup {
    pub relative_cache_path: String,
    pub sha256_hex: String,
}

impl LocalAssetManager {
    /// Records, catalog entries and index entries are each unique by asset id.
    pub open spec fn wf(&self) -> bool {
        &&& keys_unique(self.records_by_asset_id@)
        &&& catalog_wf(self.catalog_by_asset_id@)
        &&& keys_unique(self.cache_index@)
    }

    pub open spec fn records(&self) -> Map<Seq<char>, LocalAssetRecord> {
        keyed_map(self.records_by_asset_id@)
    }

    pub open spec fn catalog(&self) -> Seq<RuntimeAssetCatalogRecord> {
        self.catalog_by_asset_id@
    }

    pub open spec fn index(&self) -> Map<Seq<char>, AssetCacheIndexRecord> {
        keyed_map(self.cache_index@)
    }

    /// A manager that knows nothing yet.
    pub fn new() -> (r: Self)
        ensures
            r.wf(),
            r.records() == Map::<Seq<char>, LocalAssetRecord>::empty(),
            r.catalog() == Seq::<RuntimeAssetCatalogRecord>::empty(),
            r.index() == Map::<Seq<char>, AssetCacheIndexRecord>::empty(),
            r.catalog_version is None,
            !r.cache_index_loaded,
            !r.bootstrap_manifest_seen,
            !r.bootstrap_phase_complete,
            r.bootstrap_total_bytes == 0,
            r.bootstrap_ready_bytes == 0,
            r.reload_generation == 0,
    {
        let r = LocalAssetManager {
            records_by_asset_id: Vec::new(),
            catalog_by_asset_id: Vec::new(),
            catalog_version: None,
            cache_index: Vec::new(),
            cache_index_loaded: false,
            bootstrap_manifest_seen: false,
            bootstrap_phase_complete: false,
            bootstrap_total_bytes: 0,
            bootstrap_ready_bytes: 0,
            reload_generation: 0,
        };
        assert(r.records() =~= Map::<Seq<char>, LocalAssetRecord>::empty());
        assert(r.index() =~= Map::<Seq<char>, AssetCacheIndexRecord>::empty());
        r
    }

    /// Whether the bootstrap phase is over.
    pub fn bootstrap_complete(&self) -> (r: bool)
        ensures
            r == self.bootstrap_phase_complete,
    {
        self.bootstrap_phase_complete
    }

    /// The cache path of an asset whose cached file is ready.
    pub fn cached_relative_path(&self, asset_id: &String) -> (r: Option<&String>)
        requires
            self.wf(),
        ensures
            match r {
                Some(p) => record_ready(self, asset_id@) && p@ == self.records()[asset_id@].relative_cache_path@,
                None => !record_ready(self, asset_id@),
            },
    {
        match find_key(&self.records_by_asset_id, asset_id) {
            Some(i) => {
                if self.records_by_asset_id[i].ready {
                    Some(&self.records_by_asset_id[i].relative_cache_path)
                } else {
                    None
                }
            },
            None => None,
        }
    }

    /// Where to read a cached copy of a catalog asset: the path of its local record if there
    /// is one, else the catalog's path, with the catalog's checksum.
    pub fn cache_lookup(&self, asset_id: &String) -> (r: Option<CacheLookup>)
        requires
            self.wf(),
        ensures
            match r {
                Some(l) => {
                    &&& in_catalog(self.catalog(), asset_id@)
                    &&& l.relative_cache_path@ == lookup_path(self, asset_id@)
                    &&& l.sha256_hex@ == self.catalog()[catalog_pos(self.catalog(), asset_id@)].sha256_hex@
                },
                None => !in_catalog(self.catalog(), asset_id@),
            },
    {
        let p = match find_catalog_entry(&self.catalog_by_asset_id, asset_id) {
            Some(p) => p,
            None => return None,
        };
        let entry = &self.catalog_by_asset_id[p];
        let path = match find_key(&self.records_by_asset_id, asset_id) {
            Some(i) => self.records_by_asset_id[i].relative_cache_path.clone(),
            None => entry.relative_cache_path.clone(),
        };
        Some(CacheLookup { relative_cache_path: path, sha256_hex: entry.sha256_hex.clone() })
    }
}

/// The manager has a record for the asset, and it is ready.
pub open spec fn record_ready(m: &LocalAssetManager, id: Seq<char>) -> bool {
    m.records().contains_key(id) && m.records()[id].ready
}

/// The path under which a cached copy of `id` is looked for.
pub open spec fn lookup_path(m: &LocalAssetManager, id: Seq<char>) -> Seq<char> {
    if m.records().contains_key(id) {
        m.records()[id].relative_cache_path@
    } else {
        m.catalog()[catalog_pos(m.catalog(), id)].relative_cache_path@
    }
}

/// The asset needs no download: its record is ready, or it is in the catalog and a valid copy
/// was found on disk (`valid_on_disk` lists the ids whose lookup found one).
pub open spec fn asset_present(m: &LocalAssetManager, valid_on_disk: Seq<Seq<char>>, id: Seq<char>) -> bool {
    record_ready(m, id) || (in_catalog(m.catalog(), id) && valid_on_disk.contains(id))
}

/// Whether an asset is present in the cache, given which cached files were found valid.
pub fn asset_present_in_cache_or_source(
    asset_id: &String,
    asset_manager: &LocalAssetManager,
    valid_on_disk: &Vec<String>,
) -> (r: bool)
    requires
        asset_manager.wf(),
    ensures
        r == asset_present(asset_manager, str_views(valid_on_disk@), asset_id@),
{
    match find_key(&asset_manager.records_by_asset_id, asset_id) {
        Some(i) => {
            if asset_manager.records_by_asset_id[i].ready {
                return true;
            }
        },
        None => {},
    }
    match find_catalog_entry(&asset_manager.catalog_by_asset_id, asset_id) {
        None => false,
        Some(_) => contains_string(valid_on_disk, asset_id),
    }
}

/// A candidate that may be fetched: in the catalog, not in flight, not present.
pub open spec fn fetchable(
    m: &LocalAssetManager,
    valid_on_disk: Seq<Seq<char>>,
    in_flight: Seq<Seq<char>>,
    id: Seq<char>,
) -> bool {
    in_catalog(m.catalog(), id) && !in_flight.contains(id) && !asset_present(m, valid_on_disk, id)
}

/// A dependency that still has to be fetched: not present and not in flight.
pub open spec fn unresolved(
    m: &LocalAssetManager,
    valid_on_disk: Seq<Seq<char>>,
    in_flight: Seq<Seq<char>>,
    id: Seq<char>,
) -> bool {
    !asset_present(m, valid_on_disk, id) && !in_flight.contains(id)
}

/// The first fetchable candidate, in order.
pub open spec fn first_fetchable(
    cands: Seq<Seq<char>>,
    m: &LocalAssetManager,
    valid_on_disk: Seq<Seq<char>>,
    in_flight: Seq<Seq<char>>,
) -> Option<Seq<char>>
    decreases cands.len(),
{
    if cands.len() == 0 {
        None
    } else if fetchable(m, valid_on_disk, in_flight, cands[0]) {
        Some(cands[0])
    } else {
        first_fetchable(cands.drop_first(), m, valid_on_disk, in_flight)
    }
}

/// The first unresolved id, in order.
pub open spec fn first_unresolved(
    ids: Seq<Seq<char>>,
    m: &LocalAssetManager,
    valid_on_disk: Seq<Seq<char>>,
    in_flight: Seq<Seq<char>>,
) -> Option<Seq<char>>
    decreases ids.len(),
{
    if ids.len() == 0 {
        None
    } else if unresolved(m, valid_on_disk, in_flight, ids[0]) {
        Some(ids[0])
    } else {
        first_unresolved(ids.drop_first(), m, valid_on_disk, in_flight)
    }
}

/// The next asset to fetch: the first unresolved dependency of the first fetchable candidate,
/// or that candidate itself when all its dependencies are resolved.
pub open spec fn next_fetch_spec(
    cands: Seq<Seq<char>>,
    m: &LocalAssetManager,
    valid_on_disk: Seq<Seq<char>>,
    in_flight: Seq<Seq<char>>,
) -> Option<Seq<char>> {
    match first_fetchable(cands, m, valid_on_disk, in_flight) {
        None => None,
        Some(c) => match first_unresolved(catalog_deps(m.catalog(), c), m, valid_on_disk, in_flight) {
            Some(d) => Some(d),
            None => Some(c),
        },
    }
}

/// The first id of `ids` that is unresolved.
pub fn find_unresolved(
    ids: &Vec<String>,
    asset_manager: &LocalAssetManager,
    valid_on_disk: &Vec<String>,
    in_flight_asset_ids: &Vec<String>,
) -> (r: Option<usize>)
    requires
        asset_manager.wf(),
    ensures
        match first_unresolved(str_views(ids@), asset_manager, str_views(valid_on_disk@), str_views(in_flight_asset_ids@)) {
            Some(d) => r matches Some(i) && i < ids@.len() && ids@[i as int]@ == d,
            None => r is None,
        },
{
    let ghost vs = str_views(ids@);
    let ghost od = str_views(valid_on_disk@);
    let ghost fl = str_views(in_flight_asset_ids@);
    let mut i: usize = 0;
    assert(vs.subrange(0, vs.len() as int) =~= vs);
    while i < ids.len()
        invariant
            asset_manager.wf(),
            vs == str_views(ids@),
            od == str_views(valid_on_disk@),
            fl == str_views(in_flight_asset_ids@),
            i <= ids@.len(),
            first_unresolved(vs, asset_manager, od, fl) == first_unresolved(
                vs.subrange(i as int, vs.len() as int),
                asset_manager,
                od,
                fl,
            ),
        decreases ids.len() - i,
    {
        let ghost rest = vs.subrange(i as int, vs.len() as int);
        assert(rest[0] == ids@[i as int]@);
        assert(rest.drop_first() =~= vs.subrange(i + 1, vs.len() as int));
        let present = asset_present_in_cache_or_source(&ids[i], asset_manager, valid_on_disk);
        if !present && !contains_string(in_flight_asset_ids, &ids[i]) {
            return Some(i);
        }
        i = i + 1;
    }
    None
}

/// Picks the next asset to download among the candidates (see `next_fetch_spec`).
pub fn next_runtime_asset_fetch_candidate(
    candidate_asset_ids: &Vec<String>,
    asset_manager: &LocalAssetManager,
    valid_on_disk: &Vec<String>,
    in_flight_asset_ids: &Vec<String>,
) -> (r: Option<String>)
    requires
        asset_manager.wf(),
    ensures
        match next_fetch_spec(
            str_views(candidate_asset_ids@),
            asset_manager,
            str_views(valid_on_disk@),
            str_views(in_flight_asset_ids@),
        ) {
            Some(x) => r matches Some(s) && s@ == x,
            None => r is None,
        },
{
    let ghost vs = str_views(candidate_asset_ids@);
    let ghost od = str_views(valid_on_disk@);
    let ghost fl = str_views(in_flight_asset_ids@);
    let mut i: usize = 0;
    assert(vs.subrange(0, vs.len() as int) =~= vs);
    while i < candidate_asset_ids.len()
        invariant
            asset_manager.wf(),
            vs == str_views(candidate_asset_ids@),
            od == str_views(valid_on_disk@),
            fl == str_views(in_flight_asset_ids@),
            i <= candidate_asset_ids@.len(),
            first_fetchable(vs, asset_manager, od, fl) == first_fetchable(
                vs.subrange(i as int, vs.len() as int),
                asset_manager,
                od,
                fl,
            ),
        decreases candidate_asset_ids.len() - i,
    {
        let ghost rest = vs.subrange(i as int, vs.len() as int);
        let id = &candidate_asset_ids[i];
        assert(rest[0] == id@);
        assert(rest.drop_first() =~= vs.subrange(i + 1, vs.len() as int));
        match find_catalog_entry(&asset_manager.catalog_by_asset_id, id) {
            Some(p) => {
                if !contains_string(in_flight_asset_ids, id)
                    && !asset_present_in_cache_or_source(id, asset_manager, valid_on_disk) {
                    let deps = &asset_manager.catalog_by_asset_id[p].dependencies;
                    assert(str_views(deps@) == catalog_deps(asset_manager.catalog(), id@));
                    return match find_unresolved(deps, asset_manager, valid_on_disk, in_flight_asset_ids) {
                        Some(d) => Some(deps[d].clone()),
                        None => Some(id.clone()),
                    };
                }
            },
            None => {},
        }
        i = i + 1;
    }
    None
}

/// Where the streamed copy of a built-in shader is written, for the shader assets that have one.
pub fn streamed_shader_path_for_asset_id(shader_asset_id: &str) -> (r: Option<&'static str>)
    ensures
        shader_asset_id@ == "starfield_wgsl"@ ==> (r matches Some(p) && p@ == "data/cache_stream/shaders/starfield.wgsl"@),
        shader_asset_id@ == "space_background_wgsl"@ ==> (r matches Some(p) && p@
            == "data/cache_stream/shaders/simple_space_background.wgsl"@),
        shader_asset_id@ != "starfield_wgsl"@ && shader_asset_id@ != "space_background_wgsl"@ ==> r is None,
{
    proof {
        reveal_strlit("starfield_wgsl");
        reveal_strlit("space_background_wgsl");
        assert("starfield_wgsl"@.len() != "space_background_wgsl"@.len());
    }
    if str_eq(shader_asset_id, "starfield_wgsl") {
        Some("data/cache_stream/shaders/starfield.wgsl")
    } else if str_eq(shader_asset_id, "space_background_wgsl") {
        Some("data/cache_stream/shaders/simple_space_background.wgsl")
    } else {
        None
    }
}

/// The scene path of a streamed model: its ready cached file under `data/cache_stream/`, when
/// that file is a glTF scene (`.gltf` or `.glb`).
pub fn streamed_model_scene_path(asset_id: &String, asset_manager: &LocalAssetManager) -> (r: Option<String>)
    requires
        asset_manager.wf(),
    ensures
        match r {
            Some(p) => {
                let rel = asset_manager.records()[asset_id@].relative_cache_path@;
                &&& record_ready(asset_manager, asset_id@)
                &&& (has_suffix(rel, ".gltf"@) || has_suffix(rel, ".glb"@))
                &&& p@ == "data/cache_stream/"@ + rel
            },
            None => !record_ready(asset_manager, asset_id@) || !(has_suffix(
                asset_manager.records()[asset_id@].relative_cache_path@,
                ".gltf"@,
            ) || has_suffix(asset_manager.records()[asset_id@].relative_cache_path@, ".glb"@)),
        },
{
    let relative = match asset_manager.cached_relative_path(asset_id) {
        Some(r) => r,
        None => return None,
    };
    if !(ends_with(relative.as_str(), ".gltf") || ends_with(relative.as_str(), ".glb")) {
        return None;
    }
    Some(concat_str("data/cache_stream/", relative.as_str()))
}

} // verus!
