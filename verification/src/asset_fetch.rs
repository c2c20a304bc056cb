//! Runtime asset downloads: which downloads to start, and what their completions change.

use vstd::prelude::*;
use crate::assets::{
    AssetCatalogHotReloadState, RuntimeAssetCatalogRecord, in_catalog, catalog_pos, catalog_deps, str_views, find_catalog_entry,
    contains_string,
};
use crate::asset_cache::{
    LocalAssetManager, LocalAssetRecord, AssetCacheIndexRecord, next_fetch_spec, first_unresolved, unresolved, fetchable, first_fetchable,
    next_runtime_asset_fetch_candidate, find_unresolved,
};
use crate::keyed::{Keyed, keys_unique, keyed_map, upsert_keyed, remove_keyed};
use crate::text::{has_prefix, has_suffix, starts_with, ends_with, concat_str};

verus! {

/// At most this many downloads run at once.
pub const MAX_CONCURRENT_RUNTIME_ASSET_FETCHES: usize = 4;

/// A download started for a dependency of another asset.
#[derive(Debug)]
pub struct PendingParent {
    pub asset_id: String,
    pub parent_asset_id: String,
}

impl Keyed for PendingParent {
    open spec fn key_view(&self) -> Seq<char> {
        self.asset_id@
    }

    fn key(&self) -> (r: &String) {
        &self.asset_id
    }
}

/// Bookkeeping of runtime downloads. The tasks themselves run elsewhere; this holds the ids of
/// the assets that each pending download or cache write is for.
#[derive(Debug)]
pub struct RuntimeAssetHttpFetchState {
    pub pending_fetches: Vec<String>,
    pub pending_persists: Vec<String>,
    pub save_index_in_progress: bool,
    pub cache_index_dirty: bool,
    pub in_flight_asset_ids: Vec<String>,
    pub pending_parent_asset_ids: Vec<PendingParent>,
}

/// A download to start.
#[derive(Debug)]
pub struct RuntimeAssetFetchRequest {
    pub asset_id: String,
    pub parent_asset_id: Option<String>,
    pub url: String,
    pub relative_cache_path: String,
    pub content_type: String,
    pub sha256_hex: String,
}

/// A download to start, as values.
pub ghost struct PlannedFetch {
    pub asset_id: Seq<char>,
    pub parent_asset_id: Option<Seq<char>>,
    pub url: Seq<char>,
    pub relative_cache_path: Seq<char>,
    pub content_type: Seq<char>,
    pub sha256_hex: Seq<char>,
}

impl RuntimeAssetFetchRequest {
    pub open spec fn planned(&self) -> PlannedFetch {
        PlannedFetch {
            asset_id: self.asset_id@,
            parent_asset_id: match self.parent_asset_id {
                Some(p) => Some(p@),
                None => None,
            },
            url: self.url@,
            relative_cache_path: self.relative_cache_path@,
            content_type: self.content_type@,
            sha256_hex: self.sha256_hex@,
        }
    }
}

/// The requests, as values.
pub open spec fn planned_all(r: Seq<RuntimeAssetFetchRequest>) -> Seq<PlannedFetch> {
    r.map_values(|q: RuntimeAssetFetchRequest| q.planned())
}

/// The asset ids of planned downloads.
pub open spec fn planned_ids(p: Seq<PlannedFetch>) -> Seq<Seq<char>> {
    p.map_values(|q: PlannedFetch| q.asset_id)
}

impl RuntimeAssetHttpFetchState {
    /// No asset is in flight twice; one parent per asset.
    pub open spec fn wf(&self) -> bool {
        &&& str_views(self.in_flight_asset_ids@).no_duplicates()
        &&& keys_unique(self.pending_parent_asset_ids@)
    }

    /// The parent of each asset downloaded as a dependency.
    pub open spec fn parents(&self) -> Map<Seq<char>, Seq<char>> {
        Map::new(
            |k: Seq<char>| keyed_map(self.pending_parent_asset_ids@).contains_key(k),
            |k: Seq<char>| keyed_map(self.pending_parent_asset_ids@)[k].parent_asset_id@,
        )
    }

    /// Nothing pending.
    pub fn new() -> (r: Self)
        ensures
            r.wf(),
            r.pending_fetches@.len() == 0,
            r.pending_persists@.len() == 0,
            !r.save_index_in_progress,
            !r.cache_index_dirty,
            r.in_flight_asset_ids@.len() == 0,
            r.parents() == Map::<Seq<char>, Seq<char>>::empty(),
    {
        let r = RuntimeAssetHttpFetchState {
            pending_fetches: Vec::new(),
            pending_persists: Vec::new(),
            save_index_in_progress: false,
            cache_index_dirty: false,
            in_flight_asset_ids: Vec::new(),
            pending_parent_asset_ids: Vec::new(),
        };
        assert(r.parents() =~= Map::<Seq<char>, Seq<char>>::empty());
        r
    }

    /// Whether any download, cache write or index save is still under way.
    pub fn has_in_flight_fetch(&self) -> (r: bool)
        ensures
            r == (self.in_flight_asset_ids@.len() > 0 || self.pending_persists@.len() > 0
                || self.save_index_in_progress),
    {
        self.in_flight_asset_ids.len() > 0 || self.pending_persists.len() > 0
            || self.save_index_in_progress
    }

    /// How many assets are being downloaded.
    pub fn in_flight_asset_ids_len(&self) -> (r: usize)
        ensures
            r == self.in_flight_asset_ids@.len(),
    {
        self.in_flight_asset_ids.len()
    }
}

/// A catalog url is used as it is when absolute, else under the gateway.
pub open spec fn resolve_asset_url(url: Seq<char>, gateway_url: Seq<char>) -> Seq<char> {
    if has_prefix(url, "http://"@) || has_prefix(url, "https://"@) {
        url
    } else {
        gateway_url + url
    }
}

/// The download url of a catalog url.
pub fn resolve_asset_download_url(url: &String, gateway_url: &String) -> (r: String)
    ensures
        r@ == resolve_asset_url(url@, gateway_url@),
{
    if starts_with(url.as_str(), "http://") || starts_with(url.as_str(), "https://") {
        url.clone()
    } else {
        concat_str(gateway_url.as_str(), url.as_str())
    }
}

/// The asset a download step picks, with the asset it is a dependency of: the next candidate,
/// or its first unresolved dependency; none when either is missing from the catalog.
pub open spec fn plan_pick(
    cands: Seq<Seq<char>>,
    m: &LocalAssetManager,
    valid_on_disk: Seq<Seq<char>>,
    in_flight: Seq<Seq<char>>,
) -> Option<(Seq<char>, Option<Seq<char>>)> {
    match next_fetch_spec(cands, m, valid_on_disk, in_flight) {
        None => None,
        Some(next) => if !in_catalog(m.catalog(), next) {
            None
        } else {
            match first_unresolved(catalog_deps(m.catalog(), next), m, valid_on_disk, in_flight) {
                Some(d) => if in_catalog(m.catalog(), d) {
                    Some((d, Some(next)))
                } else {
                    None
                },
                None => Some((next, None)),
            }
        },
    }
}

/// The download of `id`, as the catalog describes it.
pub open spec fn planned_for(
    m: &LocalAssetManager,
    gateway_url: Seq<char>,
    id: Seq<char>,
    parent: Option<Seq<char>>,
) -> PlannedFetch {
    let e = m.catalog()[catalog_pos(m.catalog(), id)];
    PlannedFetch {
        asset_id: id,
        parent_asset_id: parent,
        url: resolve_asset_url(e.url@, gateway_url),
        relative_cache_path: e.relative_cache_path@,
        content_type: e.content_type@,
        sha256_hex: e.sha256_hex@,
    }
}

/// The downloads started with `slots` free: one pick after another, each added to the ids
/// in flight, until the slots are used up or nothing is left to pick.
pub open spec fn plan_fetches(
    cands: Seq<Seq<char>>,
    m: &LocalAssetManager,
    valid_on_disk: Seq<Seq<char>>,
    in_flight: Seq<Seq<char>>,
    gateway_url: Seq<char>,
    slots: nat,
) -> Seq<PlannedFetch>
    decreases slots,
{
    if slots == 0 {
        Seq::empty()
    } else {
        match plan_pick(cands, m, valid_on_disk, in_flight) {
            None => Seq::empty(),
            Some((id, parent)) => seq![planned_for(m, gateway_url, id, parent)] + plan_fetches(
                cands,
                m,
                valid_on_disk,
                in_flight.push(id),
                gateway_url,
                (slots - 1) as nat,
            ),
        }
    }
}

/// A queue step starts at most as many downloads as there are free slots, so the pending
/// downloads never exceed the limit of concurrent downloads.
pub proof fn lemma_plan_fetches_within_slots(
    cands: Seq<Seq<char>>,
    m: &LocalAssetManager,
    valid_on_disk: Seq<Seq<char>>,
    in_flight: Seq<Seq<char>>,
    gateway_url: Seq<char>,
    slots: nat,
)
    ensures
        plan_fetches(cands, m, valid_on_disk, in_flight, gateway_url, slots).len() <= slots,
    decreases slots,
{
    if slots > 0 {
        match plan_pick(cands, m, valid_on_disk, in_flight) {
            None => {},
            Some((id, _)) => {
                lemma_plan_fetches_within_slots(cands, m, valid_on_disk, in_flight.push(id), gateway_url, (slots - 1) as nat);
            },
        }
    }
}

/// `p` after recording the parent of each planned dependency download.
pub open spec fn record_parents(p: Map<Seq<char>, Seq<char>>, plans: Seq<PlannedFetch>) -> Map<Seq<char>, Seq<char>>
    decreases plans.len(),
{
    if plans.len() == 0 {
        p
    } else {
        let q = record_parents(p, plans.drop_last());
        match plans.last().parent_asset_id {
            Some(par) => q.insert(plans.last().asset_id, par),
            None => q,
        }
    }
}

proof fn lemma_first_unresolved_sound(
    ids: Seq<Seq<char>>,
    m: &LocalAssetManager,
    valid_on_disk: Seq<Seq<char>>,
    in_flight: Seq<Seq<char>>,
)
    ensures
        first_unresolved(ids, m, valid_on_disk, in_flight) matches Some(d) ==> unresolved(m, valid_on_disk, in_flight, d),
    decreases ids.len(),
{
    if ids.len() > 0 {
        lemma_first_unresolved_sound(ids.drop_first(), m, valid_on_disk, in_flight);
    }
}

proof fn lemma_first_fetchable_sound(
    ids: Seq<Seq<char>>,
    m: &LocalAssetManager,
    valid_on_disk: Seq<Seq<char>>,
    in_flight: Seq<Seq<char>>,
)
    ensures
        first_fetchable(ids, m, valid_on_disk, in_flight) matches Some(d) ==> fetchable(m, valid_on_disk, in_flight, d),
    decreases ids.len(),
{
    if ids.len() > 0 {
        lemma_first_fetchable_sound(ids.drop_first(), m, valid_on_disk, in_flight);
    }
}

/// A picked asset is never one already in flight.
pub proof fn lemma_plan_pick_not_in_flight(
    cands: Seq<Seq<char>>,
    m: &LocalAssetManager,
    valid_on_disk: Seq<Seq<char>>,
    in_flight: Seq<Seq<char>>,
)
    ensures
        plan_pick(cands, m, valid_on_disk, in_flight) matches Some((id, _)) ==> !in_flight.contains(id)
            && in_catalog(m.catalog(), id),
{
    lemma_first_fetchable_sound(cands, m, valid_on_disk, in_flight);
    match first_fetchable(cands, m, valid_on_disk, in_flight) {
        Some(c) => {
            lemma_first_unresolved_sound(catalog_deps(m.catalog(), c), m, valid_on_disk, in_flight);
            match next_fetch_spec(cands, m, valid_on_disk, in_flight) {
                Some(next) => {
                    lemma_first_unresolved_sound(catalog_deps(m.catalog(), next), m, valid_on_disk, in_flight);
                },
                None => {},
            }
        },
        None => {},
    }
}

/// Starts downloads for missing assets, up to the limit of concurrent downloads. Nothing
/// starts without an access token or when the limit is already reached. Each download marks
/// its asset in flight, and a dependency download records the asset that needs it.
pub fn queue_missing_catalog_assets(
    fetch_state: &mut RuntimeAssetHttpFetchState,
    asset_manager: &LocalAssetManager,
    candidate_asset_ids: &Vec<String>,
    valid_on_disk: &Vec<String>,
    has_access_token: bool,
    gateway_url: &String,
) -> (r: Vec<RuntimeAssetFetchRequest>)
    requires
        old(fetch_state).wf(),
        asset_manager.wf(),
    ensures
        final(fetch_state).wf(),
        final(fetch_state).pending_persists == old(fetch_state).pending_persists,
        final(fetch_state).save_index_in_progress == old(fetch_state).save_index_in_progress,
        final(fetch_state).cache_index_dirty == old(fetch_state).cache_index_dirty,
        old(fetch_state).pending_fetches@.len() <= MAX_CONCURRENT_RUNTIME_ASSET_FETCHES
            ==> final(fetch_state).pending_fetches@.len() <= MAX_CONCURRENT_RUNTIME_ASSET_FETCHES,
        !has_access_token || old(fetch_state).pending_fetches@.len() >= MAX_CONCURRENT_RUNTIME_ASSET_FETCHES
            ==> r@.len() == 0 && *final(fetch_state) == *old(fetch_state),
        has_access_token && old(fetch_state).pending_fetches@.len() < MAX_CONCURRENT_RUNTIME_ASSET_FETCHES ==> {
            &&& planned_all(r@) == plan_fetches(
                str_views(candidate_asset_ids@),
                asset_manager,
                str_views(valid_on_disk@),
                str_views(old(fetch_state).in_flight_asset_ids@),
                gateway_url@,
                (MAX_CONCURRENT_RUNTIME_ASSET_FETCHES - old(fetch_state).pending_fetches@.len()) as nat,
            )
            &&& str_views(final(fetch_state).in_flight_asset_ids@) == str_views(
                old(fetch_state).in_flight_asset_ids@,
            ) + planned_ids(planned_all(r@))
            &&& str_views(final(fetch_state).pending_fetches@) == str_views(old(fetch_state).pending_fetches@)
                + planned_ids(planned_all(r@))
            &&& final(fetch_state).parents() == record_parents(old(fetch_state).parents(), planned_all(r@))
        },
{
    let mut reqs: Vec<RuntimeAssetFetchRequest> = Vec::new();
    if !has_access_token {
        return reqs;
    }
    if fetch_state.pending_fetches.len() >= MAX_CONCURRENT_RUNTIME_ASSET_FETCHES {
        return reqs;
    }
    let ghost cands = str_views(candidate_asset_ids@);
    let ghost od = str_views(valid_on_disk@);
    let ghost fl0 = str_views(fetch_state.in_flight_asset_ids@);
    let ghost pf0 = str_views(fetch_state.pending_fetches@);
    let ghost par0 = fetch_state.parents();
    let ghost slots0 = (MAX_CONCURRENT_RUNTIME_ASSET_FETCHES - fetch_state.pending_fetches@.len()) as nat;
    let ghost total = plan_fetches(cands, asset_manager, od, fl0, gateway_url@, slots0);
    assert(planned_all(reqs@) =~= Seq::<PlannedFetch>::empty());
    assert(planned_ids(planned_all(reqs@)) =~= Seq::<Seq<char>>::empty());
    assert(fl0 + Seq::<Seq<char>>::empty() =~= fl0);
    assert(pf0 + Seq::<Seq<char>>::empty() =~= pf0);
    while fetch_state.pending_fetches.len() < MAX_CONCURRENT_RUNTIME_ASSET_FETCHES
        invariant
            fetch_state.wf(),
            asset_manager.wf(),
            cands == str_views(candidate_asset_ids@),
            od == str_views(valid_on_disk@),
            fetch_state.pending_persists == old(fetch_state).pending_persists,
            fetch_state.save_index_in_progress == old(fetch_state).save_index_in_progress,
            fetch_state.cache_index_dirty == old(fetch_state).cache_index_dirty,
            fetch_state.pending_fetches@.len() <= MAX_CONCURRENT_RUNTIME_ASSET_FETCHES,
            slots0 == MAX_CONCURRENT_RUNTIME_ASSET_FETCHES - pf0.len(),
            total == plan_fetches(cands, asset_manager, od, fl0, gateway_url@, slots0),
            planned_all(reqs@) + plan_fetches(
                cands,
                asset_manager,
                od,
                str_views(fetch_state.in_flight_asset_ids@),
                gateway_url@,
                (MAX_CONCURRENT_RUNTIME_ASSET_FETCHES - fetch_state.pending_fetches@.len()) as nat,
            ) == total,
            str_views(fetch_state.in_flight_asset_ids@) == fl0 + planned_ids(planned_all(reqs@)),
            str_views(fetch_state.pending_fetches@) == pf0 + planned_ids(planned_all(reqs@)),
            fetch_state.parents() == record_parents(par0, planned_all(reqs@)),
        ensures
            planned_all(reqs@) == total,
            fetch_state.pending_fetches@.len() <= MAX_CONCURRENT_RUNTIME_ASSET_FETCHES,
            fetch_state.wf(),
            fetch_state.pending_persists == old(fetch_state).pending_persists,
            fetch_state.save_index_in_progress == old(fetch_state).save_index_in_progress,
            fetch_state.cache_index_dirty == old(fetch_state).cache_index_dirty,
            str_views(fetch_state.in_flight_asset_ids@) == fl0 + planned_ids(planned_all(reqs@)),
            str_views(fetch_state.pending_fetches@) == pf0 + planned_ids(planned_all(reqs@)),
            fetch_state.parents() == record_parents(par0, planned_all(reqs@)),
        decreases MAX_CONCURRENT_RUNTIME_ASSET_FETCHES - fetch_state.pending_fetches@.len(),
    {
        let ghost fl = str_views(fetch_state.in_flight_asset_ids@);
        let ghost slots = (MAX_CONCURRENT_RUNTIME_ASSET_FETCHES - fetch_state.pending_fetches@.len()) as nat;
        let ghost pick = plan_pick(cands, asset_manager, od, fl);
        proof {
            lemma_plan_pick_not_in_flight(cands, asset_manager, od, fl);
        }
        let next = match next_runtime_asset_fetch_candidate(
            candidate_asset_ids,
            asset_manager,
            valid_on_disk,
            &fetch_state.in_flight_asset_ids,
        ) {
            Some(n) => n,
            None => {
                assert(pick is None);
                assert(planned_all(reqs@) + Seq::<PlannedFetch>::empty() =~= planned_all(reqs@));
                break;
            },
        };
        let p = match find_catalog_entry(&asset_manager.catalog_by_asset_id, &next) {
            Some(p) => p,
            None => {
                assert(pick is None);
                assert(planned_all(reqs@) + Seq::<PlannedFetch>::empty() =~= planned_all(reqs@));
                break;
            },
        };
        let deps = &asset_manager.catalog_by_asset_id[p].dependencies;
        assert(str_views(deps@) == catalog_deps(asset_manager.catalog(), next@));
        let found = find_unresolved(deps, asset_manager, valid_on_disk, &fetch_state.in_flight_asset_ids);
        let mut parent: Option<String> = None;
        let mut asset_id = next.clone();
        let mut q = p;
        match found {
            Some(d) => {
                let dep = deps[d].clone();
                match find_catalog_entry(&asset_manager.catalog_by_asset_id, &dep) {
                    Some(qq) => {
                        q = qq;
                        parent = Some(next);
                        asset_id = dep;
                    },
                    None => {
                        assert(pick is None);
                        assert(planned_all(reqs@) + Seq::<PlannedFetch>::empty() =~= planned_all(reqs@));
                        break;
                    },
                }
            },
            None => {},
        }
        let ghost id_v = asset_id@;
        let ghost parent_v: Option<Seq<char>> = match &parent {
            Some(s) => Some(s@),
            None => None,
        };
        assert(pick == Some((id_v, parent_v)));
        let entry: &RuntimeAssetCatalogRecord = &asset_manager.catalog_by_asset_id[q];
        assert(q == catalog_pos(asset_manager.catalog(), id_v));
        let url = resolve_asset_download_url(&entry.url, gateway_url);
        let req = RuntimeAssetFetchRequest {
            asset_id: asset_id.clone(),
            parent_asset_id: match &parent {
                Some(s) => Some(s.clone()),
                None => None,
            },
            url,
            relative_cache_path: entry.relative_cache_path.clone(),
            content_type: entry.content_type.clone(),
            sha256_hex: entry.sha256_hex.clone(),
        };
        let ghost plan = planned_for(asset_manager, gateway_url@, id_v, parent_v);
        assert(req.planned() == plan);
        let ghost before_parents = fetch_state.parents();
        match parent {
            Some(par) => {
                let ghost pv = par@;
                upsert_keyed(
                    &mut fetch_state.pending_parent_asset_ids,
                    PendingParent { asset_id: asset_id.clone(), parent_asset_id: par },
                );
                assert(fetch_state.parents() =~= before_parents.insert(id_v, pv));
            },
            None => {},
        }
        let ghost old_reqs = planned_all(reqs@);
        let ghost fl_before = str_views(fetch_state.in_flight_asset_ids@);
        let ghost pf_before = str_views(fetch_state.pending_fetches@);
        fetch_state.in_flight_asset_ids.push(asset_id.clone());
        fetch_state.pending_fetches.push(asset_id);
        reqs.push(req);
        proof {
            let nr = planned_all(reqs@);
            assert(nr =~= old_reqs.push(plan));
            assert(nr.drop_last() =~= old_reqs);
            assert(planned_ids(nr) =~= planned_ids(old_reqs).push(id_v));
            assert(str_views(fetch_state.in_flight_asset_ids@) =~= fl_before.push(id_v));
            assert(str_views(fetch_state.pending_fetches@) =~= pf_before.push(id_v));
            assert(fl0 + planned_ids(nr) =~= (fl0 + planned_ids(old_reqs)).push(id_v));
            assert(pf0 + planned_ids(nr) =~= (pf0 + planned_ids(old_reqs)).push(id_v));
            assert(str_views(fetch_state.in_flight_asset_ids@).no_duplicates()) by {
                let n = str_views(fetch_state.in_flight_asset_ids@);
                assert forall|a: int, b: int| 0 <= a < n.len() && 0 <= b < n.len() && a != b implies n[a] != n[b] by {
                    if a < fl_before.len() && b < fl_before.len() {
                        assert(n[a] == fl_before[a] && n[b] == fl_before[b]);
                    } else if a < fl_before.len() {
                        assert(fl_before.contains(n[a]));
                    } else if b < fl_before.len() {
                        assert(fl_before.contains(n[b]));
                    }
                }
            }
            let rest = plan_fetches(cands, asset_manager, od, fl_before.push(id_v), gateway_url@, (slots - 1) as nat);
            assert(plan_fetches(cands, asset_manager, od, fl_before, gateway_url@, slots) == seq![plan] + rest);
            assert(old_reqs + (seq![plan] + rest) =~= nr + rest);
        }
    }
    reqs
}

/// Removes the first occurrence of `s`.
pub fn remove_first_string(v: &mut Vec<String>, s: &String) -> (r: Option<usize>)
    ensures
        match r {
            Some(i) => {
                &&& i < old(v)@.len()
                &&& old(v)@[i as int]@ == s@
                &&& forall|j: int| 0 <= j < i ==> #[trigger] old(v)@[j]@ != s@
                &&& final(v)@ == old(v)@.remove(i as int)
            },
            None => !str_views(old(v)@).contains(s@) && final(v)@ == old(v)@,
        },
{
    let mut i: usize = 0;
    while i < v.len()
        invariant
            v@ == old(v)@,
            i <= v@.len(),
            forall|j: int| 0 <= j < i ==> #[trigger] v@[j]@ != s@,
        decreases v.len() - i,
    {
        if v[i] == *s {
            v.remove(i);
            return Some(i);
        }
        i = i + 1;
    }
    proof {
        if str_views(v@).contains(s@) {
            let k = choose|k: int| 0 <= k < str_views(v@).len() && str_views(v@)[k] == s@;
            assert(v@[k]@ == s@);
        }
    }
    None
}

/// Removes the first occurrence of `s` by moving the last item into its place.
pub fn swap_remove_first_string(v: &mut Vec<String>, s: &String) -> (r: Option<usize>)
    ensures
        match r {
            Some(i) => {
                &&& i < old(v)@.len()
                &&& old(v)@[i as int]@ == s@
                &&& forall|j: int| 0 <= j < i ==> #[trigger] old(v)@[j]@ != s@
                &&& final(v)@ == old(v)@.update(i as int, old(v)@.last()).drop_last()
            },
            None => !str_views(old(v)@).contains(s@) && final(v)@ == old(v)@,
        },
{
    let mut i: usize = 0;
    while i < v.len()
        invariant
            v@ == old(v)@,
            i <= v@.len(),
            forall|j: int| 0 <= j < i ==> #[trigger] v@[j]@ != s@,
        decreases v.len() - i,
    {
        if v[i] == *s {
            v.swap_remove(i);
            return Some(i);
        }
        i = i + 1;
    }
    proof {
        if str_views(v@).contains(s@) {
            let k = choose|k: int| 0 <= k < str_views(v@).len() && str_views(v@)[k] == s@;
            assert(v@[k]@ == s@);
        }
    }
    None
}

/// Removing an id from a list without repeats keeps it without repeats and drops just that id.
pub proof fn lemma_remove_unique(old_v: Seq<String>, i: int, s: Seq<char>)
    requires
        str_views(old_v).no_duplicates(),
        0 <= i < old_v.len(),
        old_v[i]@ == s,
    ensures
        str_views(old_v.remove(i)).no_duplicates(),
        forall|x: Seq<char>| str_views(old_v.remove(i)).contains(x) <==> (str_views(old_v).contains(x) && x != s),
{
    let o = str_views(old_v);
    let n = str_views(old_v.remove(i));
    assert(n =~= o.remove(i));
    assert forall|a: int, b: int| 0 <= a < n.len() && 0 <= b < n.len() && a != b implies n[a] != n[b] by {
        let oa = if a < i { a } else { a + 1 };
        let ob = if b < i { b } else { b + 1 };
        assert(n[a] == o[oa] && n[b] == o[ob]);
    }
    assert forall|x: Seq<char>| n.contains(x) <==> (o.contains(x) && x != s) by {
        if n.contains(x) {
            let q = choose|q: int| 0 <= q < n.len() && n[q] == x;
            let oq = if q < i { q } else { q + 1 };
            assert(n[q] == o[oq]);
            assert(o[i] == s);
            if x == s {
                assert(o[oq] == o[i]);
            }
        }
        if o.contains(x) && x != s {
            let q = choose|q: int| 0 <= q < o.len() && o[q] == x;
            assert(q != i);
            let nq = if q < i { q } else { q - 1 };
            assert(n[nq] == o[q]);
        }
    }
}

/// Removes an id from the ids in flight.
pub fn remove_in_flight(fetch_state: &mut RuntimeAssetHttpFetchState, asset_id: &String)
    requires
        old(fetch_state).wf(),
    ensures
        final(fetch_state).wf(),
        forall|x: Seq<char>| str_views(final(fetch_state).in_flight_asset_ids@).contains(x)
            <==> (str_views(old(fetch_state).in_flight_asset_ids@).contains(x) && x != asset_id@),
        final(fetch_state).parents() == old(fetch_state).parents().remove(asset_id@),
        final(fetch_state).pending_fetches == old(fetch_state).pending_fetches,
        final(fetch_state).pending_persists == old(fetch_state).pending_persists,
        final(fetch_state).save_index_in_progress == old(fetch_state).save_index_in_progress,
        final(fetch_state).cache_index_dirty == old(fetch_state).cache_index_dirty,
{
    let ghost before = fetch_state.in_flight_asset_ids@;
    match remove_first_string(&mut fetch_state.in_flight_asset_ids, asset_id) {
        Some(i) => {
            proof {
                lemma_remove_unique(before, i as int, asset_id@);
            }
        },
        None => {},
    }
    let ghost pb = fetch_state.parents();
    remove_keyed(&mut fetch_state.pending_parent_asset_ids, asset_id);
    assert(fetch_state.parents() =~= pb.remove(asset_id@));
}

/// A finished download.
#[derive(Debug)]
pub struct RuntimeAssetFetchResult {
    pub asset_id: String,
    pub relative_cache_path: String,
    pub content_type: String,
    pub byte_len: u64,
    pub asset_version: u64,
    pub sha256_hex: String,
    pub payload: Vec<u8>,
}

/// A finished cache write.
#[derive(Debug)]
pub struct RuntimeAssetPersistResult {
    pub asset_id: String,
    pub relative_cache_path: String,
    pub content_type: String,
    pub byte_len: u64,
    pub asset_version: u64,
    pub sha256_hex: String,
}

/// What follows a finished download.
#[derive(Debug)]
pub enum RuntimeAssetFetchCompletion {
    /// The payload checks out: write it to the cache.
    Persist(RuntimeAssetFetchResult),
    /// The download failed; `status` is the message for the session.
    Failed { status: String },
}

/// The session message for a failed download.
pub open spec fn download_failed_status(err: Seq<char>) -> Seq<char> {
    "Asset download failed: "@ + err
}

/// The error of a payload whose checksum differs from the announced one.
pub open spec fn checksum_mismatch_error(asset_id: Seq<char>, expected: Seq<char>, got: Seq<char>) -> Seq<char> {
    "runtime asset checksum mismatch asset_id="@ + asset_id + " expected="@ + expected + " got="@ + got
}

/// Handles a finished download of `queued_asset_id`, whose payload hashes to
/// `payload_sha256_hex`. The download leaves the pending list. A payload that matches its
/// checksum goes on to be written to the cache; a mismatch is reported and the asset stays in
/// flight; a failed download is reported and the asset leaves the flight and parent records.
pub fn complete_runtime_asset_fetch(
    fetch_state: &mut RuntimeAssetHttpFetchState,
    queued_asset_id: &String,
    result: Result<RuntimeAssetFetchResult, String>,
    payload_sha256_hex: &String,
) -> (r: RuntimeAssetFetchCompletion)
    requires
        old(fetch_state).wf(),
    ensures
        final(fetch_state).wf(),
        final(fetch_state).save_index_in_progress == old(fetch_state).save_index_in_progress,
        final(fetch_state).cache_index_dirty == old(fetch_state).cache_index_dirty,
        ({
            let pf = str_views(old(fetch_state).pending_fetches@);
            if pf.contains(queued_asset_id@) {
                exists|i: int| 0 <= i < pf.len() && pf[i] == queued_asset_id@ && (forall|j: int| 0 <= j < i ==> pf[j] != queued_asset_id@)
                    && str_views(final(fetch_state).pending_fetches@) == pf.update(i, pf.last()).drop_last()
            } else {
                str_views(final(fetch_state).pending_fetches@) == pf
            }
        }),
        match result {
            Ok(res) => if res.sha256_hex@ == payload_sha256_hex@ {
                &&& r matches RuntimeAssetFetchCompletion::Persist(p) && p == res
                &&& str_views(final(fetch_state).pending_persists@) == str_views(old(fetch_state).pending_persists@).push(res.asset_id@)
                &&& final(fetch_state).in_flight_asset_ids == old(fetch_state).in_flight_asset_ids
                &&& final(fetch_state).parents() == old(fetch_state).parents()
            } else {
                &&& r matches RuntimeAssetFetchCompletion::Failed { status } && status@ == download_failed_status(
                    checksum_mismatch_error(res.asset_id@, res.sha256_hex@, payload_sha256_hex@),
                )
                &&& final(fetch_state).pending_persists == old(fetch_state).pending_persists
                &&& final(fetch_state).in_flight_asset_ids == old(fetch_state).in_flight_asset_ids
                &&& final(fetch_state).parents() == old(fetch_state).parents()
            },
            Err(e) => {
                &&& r matches RuntimeAssetFetchCompletion::Failed { status } && status@ == download_failed_status(e@)
                &&& final(fetch_state).pending_persists == old(fetch_state).pending_persists
                &&& forall|x: Seq<char>| str_views(final(fetch_state).in_flight_asset_ids@).contains(x)
                    <==> (str_views(old(fetch_state).in_flight_asset_ids@).contains(x) && x != queued_asset_id@)
                &&& final(fetch_state).parents() == old(fetch_state).parents().remove(queued_asset_id@)
            },
        },
{
    let ghost pf = fetch_state.pending_fetches@;
    let removed = swap_remove_first_string(&mut fetch_state.pending_fetches, queued_asset_id);
    proof {
        match removed {
            Some(i) => {
                assert(str_views(fetch_state.pending_fetches@) =~= str_views(pf).update(i as int, str_views(pf).last()).drop_last());
                assert(str_views(pf)[i as int] == queued_asset_id@);
                assert(forall|j: int| 0 <= j < i ==> str_views(pf)[j] == pf[j]@);
            },
            None => {},
        }
    }
    match result {
        Ok(res) => {
            if res.sha256_hex == *payload_sha256_hex {
                let ghost pp = fetch_state.pending_persists@;
                fetch_state.pending_persists.push(res.asset_id.clone());
                assert(str_views(fetch_state.pending_persists@) =~= str_views(pp).push(res.asset_id@));
                RuntimeAssetFetchCompletion::Persist(res)
            } else {
                let mut err = concat_str("runtime asset checksum mismatch asset_id=", res.asset_id.as_str());
                err.append(" expected=");
                err.append(res.sha256_hex.as_str());
                err.append(" got=");
                err.append(payload_sha256_hex.as_str());
                let status = concat_str("Asset download failed: ", err.as_str());
                RuntimeAssetFetchCompletion::Failed { status }
            }
        },
        Err(e) => {
            remove_in_flight(fetch_state, queued_asset_id);
            let status = concat_str("Asset download failed: ", e.as_str());
            RuntimeAssetFetchCompletion::Failed { status }
        },
    }
}

/// Handles the end of an index save: an error is reported and leaves the index to be saved
/// again.
pub fn complete_runtime_asset_save_index(
    fetch_state: &mut RuntimeAssetHttpFetchState,
    result: Result<(), String>,
) -> (status: Option<String>)
    requires
        old(fetch_state).wf(),
    ensures
        final(fetch_state).wf(),
        !final(fetch_state).save_index_in_progress,
        final(fetch_state).pending_fetches == old(fetch_state).pending_fetches,
        final(fetch_state).pending_persists == old(fetch_state).pending_persists,
        final(fetch_state).in_flight_asset_ids == old(fetch_state).in_flight_asset_ids,
        final(fetch_state).pending_parent_asset_ids == old(fetch_state).pending_parent_asset_ids,
        match result {
            Ok(_) => status is None && final(fetch_state).cache_index_dirty == old(fetch_state).cache_index_dirty,
            Err(e) => status matches Some(s) && s@ == download_failed_status(e@) && final(fetch_state).cache_index_dirty,
        },
{
    fetch_state.save_index_in_progress = false;
    match result {
        Ok(_) => None,
        Err(e) => {
            fetch_state.cache_index_dirty = true;
            Some(concat_str("Asset download failed: ", e.as_str()))
        },
    }
}

/// Starts an index save when the index changed and no save is under way; says whether it did.
pub fn start_runtime_asset_save_index(fetch_state: &mut RuntimeAssetHttpFetchState) -> (started: bool)
    ensures
        started == (old(fetch_state).cache_index_dirty && !old(fetch_state).save_index_in_progress),
        started ==> !final(fetch_state).cache_index_dirty && final(fetch_state).save_index_in_progress,
        !started ==> *final(fetch_state) == *old(fetch_state),
        final(fetch_state).pending_fetches == old(fetch_state).pending_fetches,
        final(fetch_state).pending_persists == old(fetch_state).pending_persists,
        final(fetch_state).in_flight_asset_ids == old(fetch_state).in_flight_asset_ids,
        final(fetch_state).pending_parent_asset_ids == old(fetch_state).pending_parent_asset_ids,
{
    if fetch_state.cache_index_dirty && !fetch_state.save_index_in_progress {
        fetch_state.cache_index_dirty = false;
        fetch_state.save_index_in_progress = true;
        true
    } else {
        false
    }
}

/// Removes every occurrence of `s`.
pub fn remove_every_string(v: &mut Vec<String>, s: &String)
    ensures
        forall|x: Seq<char>| str_views(final(v)@).contains(x) <==> (str_views(old(v)@).contains(x) && x != s@),
        str_views(old(v)@).no_duplicates() ==> str_views(final(v)@).no_duplicates(),
{
    let mut kept: Vec<String> = Vec::new();
    let mut i: usize = 0;
    while i < v.len()
        invariant
            v@ == old(v)@,
            i <= v@.len(),
            forall|k: int| 0 <= k < kept@.len() ==> #[trigger] kept@[k]@ != s@,
            forall|x: Seq<char>| str_views(kept@).contains(x) <==> (str_views(v@.take(i as int)).contains(x) && x != s@),
            str_views(old(v)@).no_duplicates() ==> str_views(kept@).no_duplicates(),
        decreases v.len() - i,
    {
        let ghost before = str_views(kept@);
        let ghost ti = str_views(v@.take(i as int));
        assert(str_views(v@.take(i + 1)) =~= ti.push(v@[i as int]@));
        if v[i] != *s {
            kept.push(v[i].clone());
            assert(str_views(kept@) =~= before.push(v@[i as int]@));
            proof {
                if str_views(old(v)@).no_duplicates() {
                    let o = str_views(old(v)@);
                    assert(!before.contains(v@[i as int]@)) by {
                        if before.contains(v@[i as int]@) {
                            assert(ti.contains(v@[i as int]@));
                            let q = choose|q: int| 0 <= q < ti.len() && ti[q] == v@[i as int]@;
                            assert(o[q] == o[i as int]);
                        }
                    }
                }
            }
        }
        proof {
            let after = str_views(kept@);
            let tn = ti.push(v@[i as int]@);
            assert forall|x: Seq<char>| after.contains(x) <==> (tn.contains(x) && x != s@) by {
                if tn.contains(x) {
                    let q = choose|q: int| 0 <= q < tn.len() && tn[q] == x;
                    if q < ti.len() {
                        assert(ti[q] == x);
                        assert(ti.contains(x));
                    }
                }
                if ti.contains(x) {
                    let q = choose|q: int| 0 <= q < ti.len() && ti[q] == x;
                    assert(tn[q] == x);
                }
                if after.contains(x) {
                    let q = choose|q: int| 0 <= q < after.len() && after[q] == x;
                    if q < before.len() {
                        assert(before[q] == x);
                        assert(before.contains(x));
                    } else {
                        assert(tn[ti.len() as int] == x);
                    }
                }
                if before.contains(x) {
                    let q = choose|q: int| 0 <= q < before.len() && before[q] == x;
                    if after.len() > before.len() {
                        assert(after[q] == x);
                    }
                }
                if tn.contains(x) && x != s@ && !ti.contains(x) {
                    assert(x == v@[i as int]@);
                    assert(after[before.len() as int] == x);
                }
            }
        }
        i = i + 1;
    }
    assert(v@.take(i as int) =~= v@);
    *v = kept;
}

/// What follows a finished cache write.
#[derive(Debug)]
pub struct RuntimeAssetPersistCompletion {
    /// The message for the session.
    pub status: String,
    /// The written file is a shader source (`.wgsl`), so streamed shaders may need a reload.
    pub wrote_shader_source: bool,
}

/// Handles a finished cache write for `queued_asset_id`. The write leaves the pending list and
/// the asset leaves the flight and parent records. On success the cache index and the records
/// take the new file (ready, one chunk), the index is marked for saving and the asset is no
/// longer forced.
pub fn complete_runtime_asset_persist(
    asset_manager: &mut LocalAssetManager,
    fetch_state: &mut RuntimeAssetHttpFetchState,
    hot_reload: &mut AssetCatalogHotReloadState,
    queued_asset_id: &String,
    result: Result<RuntimeAssetPersistResult, String>,
) -> (r: RuntimeAssetPersistCompletion)
    requires
        old(asset_manager).wf(),
        old(fetch_state).wf(),
    ensures
        final(asset_manager).wf(),
        final(fetch_state).wf(),
        final(fetch_state).pending_fetches == old(fetch_state).pending_fetches,
        final(fetch_state).save_index_in_progress == old(fetch_state).save_index_in_progress,
        final(asset_manager).catalog_by_asset_id == old(asset_manager).catalog_by_asset_id,
        final(asset_manager).bootstrap_phase_complete == old(asset_manager).bootstrap_phase_complete,
        final(asset_manager).bootstrap_ready_bytes == old(asset_manager).bootstrap_ready_bytes,
        final(asset_manager).reload_generation == old(asset_manager).reload_generation,
        ({
            let pp = str_views(old(fetch_state).pending_persists@);
            if pp.contains(queued_asset_id@) {
                exists|i: int| 0 <= i < pp.len() && pp[i] == queued_asset_id@ && (forall|j: int| 0 <= j < i ==> pp[j] != queued_asset_id@)
                    && str_views(final(fetch_state).pending_persists@) == pp.update(i, pp.last()).drop_last()
            } else {
                str_views(final(fetch_state).pending_persists@) == pp
            }
        }),
        match result {
            Ok(res) => {
                &&& r.status@ == "Asset downloaded: "@ + res.asset_id@
                &&& r.wrote_shader_source == has_suffix(res.relative_cache_path@, ".wgsl"@)
                &&& final(fetch_state).cache_index_dirty
                &&& final(asset_manager).index().dom() == old(asset_manager).index().dom().insert(res.asset_id@)
                &&& final(asset_manager).index()[res.asset_id@].asset_version == res.asset_version
                &&& final(asset_manager).index()[res.asset_id@].sha256_hex@ == res.sha256_hex@
                &&& forall|k: Seq<char>| k != res.asset_id@ && old(asset_manager).index().contains_key(k)
                    ==> final(asset_manager).index()[k] == old(asset_manager).index()[k]
                &&& final(asset_manager).records().dom() == old(asset_manager).records().dom().insert(res.asset_id@)
                &&& final(asset_manager).records()[res.asset_id@].ready
                &&& final(asset_manager).records()[res.asset_id@].relative_cache_path@ == res.relative_cache_path@
                &&& final(asset_manager).records()[res.asset_id@].content_type@ == res.content_type@
                &&& final(asset_manager).records()[res.asset_id@].byte_len == res.byte_len
                &&& final(asset_manager).records()[res.asset_id@].chunk_count == 1
                &&& final(asset_manager).records()[res.asset_id@].asset_version == res.asset_version
                &&& final(asset_manager).records()[res.asset_id@].sha256_hex@ == res.sha256_hex@
                &&& forall|k: Seq<char>| k != res.asset_id@ && old(asset_manager).records().contains_key(k)
                    ==> final(asset_manager).records()[k] == old(asset_manager).records()[k]
                &&& forall|x: Seq<char>| str_views(final(hot_reload).forced_asset_ids@).contains(x)
                    <==> (str_views(old(hot_reload).forced_asset_ids@).contains(x) && x != res.asset_id@)
                &&& forall|x: Seq<char>| str_views(final(fetch_state).in_flight_asset_ids@).contains(x)
                    <==> (str_views(old(fetch_state).in_flight_asset_ids@).contains(x) && x != res.asset_id@)
                &&& final(fetch_state).parents() == old(fetch_state).parents().remove(res.asset_id@)
            },
            Err(e) => {
                &&& r.status@ == download_failed_status(e@)
                &&& !r.wrote_shader_source
                &&& final(fetch_state).cache_index_dirty == old(fetch_state).cache_index_dirty
                &&& *final(asset_manager) == *old(asset_manager)
                &&& final(hot_reload).forced_asset_ids == old(hot_reload).forced_asset_ids
                &&& forall|x: Seq<char>| str_views(final(fetch_state).in_flight_asset_ids@).contains(x)
                    <==> (str_views(old(fetch_state).in_flight_asset_ids@).contains(x) && x != queued_asset_id@)
                &&& final(fetch_state).parents() == old(fetch_state).parents().remove(queued_asset_id@)
            },
        },
{
    let ghost pp = fetch_state.pending_persists@;
    let removed = swap_remove_first_string(&mut fetch_state.pending_persists, queued_asset_id);
    proof {
        match removed {
            Some(i) => {
                assert(str_views(fetch_state.pending_persists@) =~= str_views(pp).update(i as int, str_views(pp).last()).drop_last());
                assert(str_views(pp)[i as int] == queued_asset_id@);
                assert(forall|j: int| 0 <= j < i ==> str_views(pp)[j] == pp[j]@);
            },
            None => {},
        }
    }
    match result {
        Ok(res) => {
            let ghost idx0 = asset_manager.index();
            let ghost rec0 = asset_manager.records();
            upsert_keyed(
                &mut asset_manager.cache_index,
                AssetCacheIndexRecord {
                    asset_id: res.asset_id.clone(),
                    asset_version: res.asset_version,
                    sha256_hex: res.sha256_hex.clone(),
                },
            );
            fetch_state.cache_index_dirty = true;
            upsert_keyed(
                &mut asset_manager.records_by_asset_id,
                LocalAssetRecord {
                    asset_id: res.asset_id.clone(),
                    relative_cache_path: res.relative_cache_path.clone(),
                    content_type: res.content_type.clone(),
                    byte_len: res.byte_len,
                    chunk_count: 1,
                    asset_version: res.asset_version,
                    sha256_hex: res.sha256_hex.clone(),
                    ready: true,
                },
            );
            assert(asset_manager.index().dom() =~= idx0.dom().insert(res.asset_id@));
            assert(asset_manager.records().dom() =~= rec0.dom().insert(res.asset_id@));
            remove_every_string(&mut hot_reload.forced_asset_ids, &res.asset_id);
            let status = concat_str("Asset downloaded: ", res.asset_id.as_str());
            let wrote_shader_source = ends_with(res.relative_cache_path.as_str(), ".wgsl");
            remove_in_flight(fetch_state, &res.asset_id);
            RuntimeAssetPersistCompletion { status, wrote_shader_source }
        },
        Err(e) => {
            remove_in_flight(fetch_state, queued_asset_id);
            RuntimeAssetPersistCompletion {
                status: concat_str("Asset download failed: ", e.as_str()),
                wrote_shader_source: false,
            }
        },
    }
}

} // verus!
