//! The runtime asset catalog: dependency closure, fetch planning and cache bookkeeping.

use vstd::prelude::*;

verus! {

/// A catalog entry of a runtime asset, as the gateway describes it.
#[derive(Debug)]
pub struct RuntimeAssetCatalogRecord {
    pub asset_id: String,
    pub asset_guid: String,
    pub shader_family: Option<String>,
    pub dependencies: Vec<String>,
    pub url: String,
    pub relative_cache_path: String,
    pub content_type: String,
    pub byte_len: u64,
    pub sha256_hex: String,
}

/// The characters of each string of a sequence.
pub open spec fn str_views(s: Seq<String>) -> Seq<Seq<char>> {
    s.map_values(|x: String| x@)
}

/// The ids of the catalog entries, in order.
pub open spec fn catalog_ids(cat: Seq<RuntimeAssetCatalogRecord>) -> Seq<Seq<char>> {
    cat.map_values(|r: RuntimeAssetCatalogRecord| r.asset_id@)
}

/// No two catalog entries share an id.
pub open spec fn catalog_wf(cat: Seq<RuntimeAssetCatalogRecord>) -> bool {
    forall|i: int, j: int|
        0 <= i < cat.len() && 0 <= j < cat.len() && i != j ==> #[trigger] cat[i].asset_id@
            != #[trigger] cat[j].asset_id@
}

/// Whether the catalog has an entry for `id`.
pub open spec fn in_catalog(cat: Seq<RuntimeAssetCatalogRecord>, id: Seq<char>) -> bool {
    exists|i: int| 0 <= i < cat.len() && #[trigger] cat[i].asset_id@ == id
}

/// The position of the catalog entry for `id` (meaningful when `in_catalog`).
pub open spec fn catalog_pos(cat: Seq<RuntimeAssetCatalogRecord>, id: Seq<char>) -> int {
    choose|i: int| 0 <= i < cat.len() && #[trigger] cat[i].asset_id@ == id
}

/// The dependencies that the catalog lists for `id`; none when it has no entry.
pub open spec fn catalog_deps(cat: Seq<RuntimeAssetCatalogRecord>, id: Seq<char>) -> Seq<Seq<char>> {
    if in_catalog(cat, id) {
        str_views(cat[catalog_pos(cat, id)].dependencies@)
    } else {
        Seq::empty()
    }
}

/// `b` is a direct dependency of `a` in the catalog.
pub open spec fn depends_on(cat: Seq<RuntimeAssetCatalogRecord>, a: Seq<char>, b: Seq<char>) -> bool {
    in_catalog(cat, a) && catalog_deps(cat, a).contains(b)
}

/// Every step of `path` goes from an asset to one of its dependencies.
pub open spec fn is_dependency_path(cat: Seq<RuntimeAssetCatalogRecord>, path: Seq<Seq<char>>) -> bool {
    forall|k: int| 0 <= k < path.len() - 1 ==> depends_on(cat, #[trigger] path[k], path[k + 1])
}

/// `x` is one of the seeds, or reached from one by following dependencies.
pub open spec fn reachable_from(
    cat: Seq<RuntimeAssetCatalogRecord>,
    seeds: Seq<Seq<char>>,
    x: Seq<char>,
) -> bool {
    exists|path: Seq<Seq<char>>|
        path.len() > 0 && seeds.contains(path[0]) && path.last() == x && #[trigger]
            is_dependency_path(cat, path)
}

/// Returns the position of the catalog entry with the given id.
pub fn find_catalog_entry(cat: &Vec<RuntimeAssetCatalogRecord>, id: &String) -> (r: Option<usize>)
    requires
        catalog_wf(cat@),
    ensures
        match r {
            Some(i) => i < cat@.len() && cat@[i as int].asset_id@ == id@ && i == catalog_pos(cat@, id@),
            None => !in_catalog(cat@, id@),
        },
{
    let mut i: usize = 0;
    while i < cat.len()
        invariant
            catalog_wf(cat@),
            i <= cat@.len(),
            forall|j: int| 0 <= j < i ==> #[trigger] cat@[j].asset_id@ != id@,
        decreases cat.len() - i,
    {
        if cat[i].asset_id == *id {
            proof {
                let p = catalog_pos(cat@, id@);
                assert(in_catalog(cat@, id@));
                assert(cat@[p].asset_id@ == id@);
                if p != i as int {
                    assert(cat@[p].asset_id@ != cat@[i as int].asset_id@);
                }
            }
            return Some(i);
        }
        i = i + 1;
    }
    None
}

/// Whether `v` holds a string equal to `s`.
pub fn contains_string(v: &Vec<String>, s: &String) -> (r: bool)
    ensures
        r == str_views(v@).contains(s@),
{
    let mut i: usize = 0;
    while i < v.len()
        invariant
            i <= v@.len(),
            forall|j: int| 0 <= j < i ==> #[trigger] v@[j]@ != s@,
        decreases v.len() - i,
    {
        if v[i] == *s {
            assert(str_views(v@)[i as int] == s@);
            return true;
        }
        i = i + 1;
    }
    proof {
        if str_views(v@).contains(s@) {
            let k = choose|k: int| 0 <= k < str_views(v@).len() && str_views(v@)[k] == s@;
            assert(v@[k]@ == s@);
        }
    }
    false
}


/// Every dependency id that the catalog mentions, entry after entry.
pub open spec fn all_catalog_deps(cat: Seq<RuntimeAssetCatalogRecord>) -> Seq<Seq<char>>
    decreases cat.len(),
{
    if cat.len() == 0 {
        Seq::empty()
    } else {
        all_catalog_deps(cat.drop_last()) + str_views(cat.last().dependencies@)
    }
}

proof fn lemma_dep_in_all_catalog_deps(cat: Seq<RuntimeAssetCatalogRecord>, i: int, y: Seq<char>)
    requires
        0 <= i < cat.len(),
        str_views(cat[i].dependencies@).contains(y),
    ensures
        all_catalog_deps(cat).contains(y),
    decreases cat.len(),
{
    let prev = all_catalog_deps(cat.drop_last());
    let last = str_views(cat.last().dependencies@);
    if i == cat.len() - 1 {
        let t = choose|t: int| 0 <= t < last.len() && last[t] == y;
        assert((prev + last)[prev.len() + t] == y);
    } else {
        assert(cat.drop_last()[i] == cat[i]);
        lemma_dep_in_all_catalog_deps(cat.drop_last(), i, y);
        let t = choose|t: int| 0 <= t < prev.len() && prev[t] == y;
        assert((prev + last)[t] == y);
    }
}

/// A sequence without repeats whose items all occur in `u` is no longer than `u`.
pub proof fn lemma_no_dup_len_bound<A>(r: Seq<A>, u: Seq<A>)
    requires
        r.no_duplicates(),
        forall|k: int| 0 <= k < r.len() ==> u.contains(#[trigger] r[k]),
    ensures
        r.len() <= u.len(),
{
    broadcast use vstd::seq_lib::seq_to_set_is_finite;
    r.unique_seq_to_set();
    u.lemma_cardinality_of_set();
    assert(r.to_set().subset_of(u.to_set())) by {
        assert forall|x: A| r.to_set().contains(x) implies u.to_set().contains(x) by {
            let k = choose|k: int| 0 <= k < r.len() && r[k] == x;
            assert(u.contains(r[k]));
        }
    }
    vstd::set_lib::lemma_len_subset(r.to_set(), u.to_set());
}

/// A set that holds the seeds and every dependency of its members holds all that is reachable.
proof fn lemma_closed_holds_reachable(
    cat: Seq<RuntimeAssetCatalogRecord>,
    seeds: Seq<Seq<char>>,
    ev: Seq<Seq<char>>,
    path: Seq<Seq<char>>,
)
    requires
        path.len() > 0,
        seeds.contains(path[0]),
        is_dependency_path(cat, path),
        forall|x: Seq<char>| seeds.contains(x) ==> ev.contains(x),
        forall|a: Seq<char>, y: Seq<char>| ev.contains(a) && depends_on(cat, a, y) ==> ev.contains(y),
    ensures
        ev.contains(path.last()),
    decreases path.len(),
{
    if path.len() > 1 {
        let prefix = path.drop_last();
        assert(is_dependency_path(cat, prefix)) by {
            assert forall|k: int| 0 <= k < prefix.len() - 1 implies depends_on(
                cat,
                #[trigger] prefix[k],
                prefix[k + 1],
            ) by {
                assert(depends_on(cat, path[k], path[k + 1]));
            }
        }
        lemma_closed_holds_reachable(cat, seeds, ev, prefix);
        assert(depends_on(cat, path[path.len() - 2], path[path.len() - 1]));
    }
}

/// Extends the path that reaches `a` by one dependency step to `y`.
proof fn lemma_reachable_step(
    cat: Seq<RuntimeAssetCatalogRecord>,
    seeds: Seq<Seq<char>>,
    a: Seq<char>,
    y: Seq<char>,
)
    requires
        reachable_from(cat, seeds, a),
        depends_on(cat, a, y),
    ensures
        reachable_from(cat, seeds, y),
{
    let path = choose|path: Seq<Seq<char>>|
        path.len() > 0 && seeds.contains(path[0]) && path.last() == a && #[trigger]
            is_dependency_path(cat, path);
    let p2 = path.push(y);
    assert(is_dependency_path(cat, p2)) by {
        assert forall|k: int| 0 <= k < p2.len() - 1 implies depends_on(
            cat,
            #[trigger] p2[k],
            p2[k + 1],
        ) by {
            if k < path.len() - 1 {
                assert(depends_on(cat, path[k], path[k + 1]));
            }
        }
    }
    assert(p2[0] == path[0]);
    assert(p2.last() == y);
}

proof fn lemma_seed_reachable(cat: Seq<RuntimeAssetCatalogRecord>, seeds: Seq<Seq<char>>, x: Seq<char>)
    requires
        seeds.contains(x),
    ensures
        reachable_from(cat, seeds, x),
{
    let path = seq![x];
    assert(is_dependency_path(cat, path));
    assert(path.last() == x);
}

/// The asset ids that the seeds need: the seeds themselves and, transitively, every
/// dependency that the catalog lists for them. Each id occurs once.
pub fn expand_catalog_dependencies(
    seed_asset_ids: Vec<String>,
    cat: &Vec<RuntimeAssetCatalogRecord>,
) -> (r: Vec<String>)
    requires
        catalog_wf(cat@),
    ensures
        str_views(r@).no_duplicates(),
        forall|x: Seq<char>|
            str_views(r@).contains(x) <==> reachable_from(cat@, str_views(seed_asset_ids@), x),
{
    let ghost seeds = str_views(seed_asset_ids@);
    let ghost universe = seeds + all_catalog_deps(cat@);
    let mut expanded: Vec<String> = Vec::new();
    let mut j: usize = 0;
    while j < seed_asset_ids.len()
        invariant
            seeds == str_views(seed_asset_ids@),
            universe == seeds + all_catalog_deps(cat@),
            j <= seed_asset_ids@.len(),
            str_views(expanded@).no_duplicates(),
            forall|x: Seq<char>| str_views(expanded@).contains(x) <==> seeds.take(j as int).contains(x),
        decreases seed_asset_ids.len() - j,
    {
        let ghost before = str_views(expanded@);
        let seed = &seed_asset_ids[j];
        assert(seeds.take(j + 1) =~= seeds.take(j as int).push(seed@));
        let ghost tj = seeds.take(j as int);
        if !contains_string(&expanded, seed) {
            expanded.push(seed.clone());
            assert(str_views(expanded@) =~= before.push(seed@));
        }
        proof {
            let after = str_views(expanded@);
            assert forall|x: Seq<char>| after.contains(x) <==> tj.push(seed@).contains(x) by {
                if after.contains(x) {
                    let q = choose|q: int| 0 <= q < after.len() && after[q] == x;
                    if q < before.len() {
                        assert(before[q] == x);
                        assert(before.contains(x));
                        let w = choose|w: int| 0 <= w < tj.len() && tj[w] == x;
                        assert(tj.push(seed@)[w] == x);
                    } else {
                        assert(tj.push(seed@)[tj.len() as int] == x);
                    }
                }
                if tj.push(seed@).contains(x) {
                    let w = choose|w: int| 0 <= w < tj.len() + 1 && tj.push(seed@)[w] == x;
                    if w < tj.len() {
                        assert(tj[w] == x);
                        assert(tj.contains(x));
                        assert(before.contains(x));
                        let q = choose|q: int| 0 <= q < before.len() && before[q] == x;
                        assert(after[q] == x);
                    } else {
                        if after.len() > before.len() {
                            assert(after[before.len() as int] == x);
                        } else {
                            assert(before.contains(seed@));
                        }
                    }
                }
            }
        }
        j = j + 1;
    }
    assert(seeds.take(j as int) =~= seeds);
    proof {
        assert forall|k: int| 0 <= k < expanded@.len() implies universe.contains(
            #[trigger] str_views(expanded@)[k],
        ) by {
            let x = str_views(expanded@)[k];
            assert(str_views(expanded@).contains(x));
            let t = choose|t: int| 0 <= t < seeds.len() && seeds[t] == x;
            assert(universe[t] == x);
        }
        assert forall|k: int| 0 <= k < expanded@.len() implies reachable_from(
            cat@,
            seeds,
            #[trigger] str_views(expanded@)[k],
        ) by {
            assert(str_views(expanded@).contains(str_views(expanded@)[k]));
            lemma_seed_reachable(cat@, seeds, str_views(expanded@)[k]);
        }
    }
    let mut i: usize = 0;
    while i < expanded.len()
        invariant
            catalog_wf(cat@),
            seeds == str_views(seed_asset_ids@),
            universe == seeds + all_catalog_deps(cat@),
            i <= expanded@.len(),
            str_views(expanded@).no_duplicates(),
            forall|k: int| 0 <= k < expanded@.len() ==> universe.contains(#[trigger] str_views(expanded@)[k]),
            forall|k: int| 0 <= k < expanded@.len() ==> reachable_from(cat@, seeds, #[trigger] str_views(expanded@)[k]),
            forall|x: Seq<char>| seeds.contains(x) ==> str_views(expanded@).contains(x),
            forall|k: int, y: Seq<char>|
                0 <= k < i && #[trigger] depends_on(cat@, str_views(expanded@)[k], y)
                    ==> str_views(expanded@).contains(y),
        decreases universe.len() - i,
    {
        proof {
            lemma_no_dup_len_bound(str_views(expanded@), universe);
        }
        let id = expanded[i].clone();
        let ghost a = id@;
        assert(str_views(expanded@)[i as int] == a);
        match find_catalog_entry(cat, &id) {
            None => {
                assert forall|y: Seq<char>| depends_on(cat@, a, y) implies str_views(expanded@).contains(y) by {}
            },
            Some(p) => {
                let deps = &cat[p].dependencies;
                let ghost dv = str_views(deps@);
                assert(catalog_deps(cat@, a) == dv);
                let mut d: usize = 0;
                while d < deps.len()
                    invariant
                        catalog_wf(cat@),
                        seeds == str_views(seed_asset_ids@),
                        universe == seeds + all_catalog_deps(cat@),
                        p < cat@.len(),
                        deps == &cat@[p as int].dependencies,
                        dv == str_views(deps@),
                        in_catalog(cat@, a),
                        catalog_deps(cat@, a) == dv,
                        i < expanded@.len(),
                        str_views(expanded@)[i as int] == a,
                        d <= deps@.len(),
                        str_views(expanded@).no_duplicates(),
                        forall|k: int| 0 <= k < expanded@.len() ==> universe.contains(#[trigger] str_views(expanded@)[k]),
                        forall|k: int| 0 <= k < expanded@.len() ==> reachable_from(cat@, seeds, #[trigger] str_views(expanded@)[k]),
                        forall|x: Seq<char>| seeds.contains(x) ==> str_views(expanded@).contains(x),
                        forall|k: int, y: Seq<char>|
                            0 <= k < i && #[trigger] depends_on(cat@, str_views(expanded@)[k], y)
                                ==> str_views(expanded@).contains(y),
                        forall|t: int| 0 <= t < d ==> str_views(expanded@).contains(#[trigger] dv[t]),
                    decreases deps.len() - d,
                {
                    let dep = &deps[d];
                    let ghost before = str_views(expanded@);
                    assert(dv[d as int] == dep@);
                    if !contains_string(&expanded, dep) {
                        proof {
                            assert(dv.contains(dep@));
                            assert(depends_on(cat@, a, dep@));
                            lemma_reachable_step(cat@, seeds, a, dep@);
                            assert(cat@[p as int].dependencies == *deps);
                            assert(str_views(cat@[p as int].dependencies@).contains(dep@));
                            lemma_dep_in_all_catalog_deps(cat@, p as int, dep@);
                            let u2 = all_catalog_deps(cat@);
                            let t = choose|t: int| 0 <= t < u2.len() && u2[t] == dep@;
                            assert(universe[seeds.len() + t] == dep@);
                        }
                        expanded.push(dep.clone());
                        proof {
                            let after = str_views(expanded@);
                            assert(after =~= before.push(dep@));
                            assert forall|x: Seq<char>| before.contains(x) implies after.contains(x) by {
                                let q = choose|q: int| 0 <= q < before.len() && before[q] == x;
                                assert(after[q] == x);
                            }
                            assert(after[before.len() as int] == dep@);
                        }
                    }
                    d = d + 1;
                }
                assert forall|y: Seq<char>| depends_on(cat@, a, y) implies str_views(expanded@).contains(y) by {
                    let t = choose|t: int| 0 <= t < dv.len() && dv[t] == y;
                }
            },
        }
        i = i + 1;
    }
    proof {
        let ev = str_views(expanded@);
        assert forall|a: Seq<char>, y: Seq<char>| ev.contains(a) && depends_on(cat@, a, y) implies ev.contains(y) by {
            let k = choose|k: int| 0 <= k < ev.len() && ev[k] == a;
        }
        assert forall|x: Seq<char>| ev.contains(x) <==> reachable_from(cat@, seeds, x) by {
            if ev.contains(x) {
                let k = choose|k: int| 0 <= k < ev.len() && ev[k] == x;
            }
            if reachable_from(cat@, seeds, x) {
                let path = choose|path: Seq<Seq<char>>|
                    path.len() > 0 && seeds.contains(path[0]) && path.last() == x && #[trigger]
                        is_dependency_path(cat@, path);
                lemma_closed_holds_reachable(cat@, seeds, ev, path);
            }
        }
    }
    expanded
}

/// Catalog hot reload: a newer catalog version to load, and assets to fetch again.
#[derive(Debug)]
pub struct AssetCatalogHotReloadState {
    pub pending_catalog_version: Option<String>,
    pub forced_asset_ids: Vec<String>,
}

impl AssetCatalogHotReloadState {
    /// No reload pending, nothing forced.
    pub fn new() -> (r: Self)
        ensures
            r.pending_catalog_version is None,
            r.forced_asset_ids@.len() == 0,
    {
        AssetCatalogHotReloadState { pending_catalog_version: None, forced_asset_ids: Vec::new() }
    }
}

/// The catalog version that a batch of version announcements leaves pending: the last one
/// that differs from the loaded version, else what was pending before.
pub open spec fn pending_version_after(
    current: Option<Seq<char>>,
    pending: Option<Seq<char>>,
    announced: Seq<Seq<char>>,
) -> Option<Seq<char>>
    decreases announced.len(),
{
    if announced.len() == 0 {
        pending
    } else if current == Some(announced.last()) {
        pending_version_after(current, pending, announced.drop_last())
    } else {
        Some(announced.last())
    }
}

/// The optional string, as characters.
pub open spec fn opt_str_view(s: Option<String>) -> Option<Seq<char>> {
    match s {
        Some(v) => Some(v@),
        None => None,
    }
}

/// Records the announced catalog versions, in order: each one that differs from the loaded
/// version becomes the pending version.
pub fn receive_asset_catalog_version_messages(
    catalog_version: &Option<String>,
    hot_reload: &mut AssetCatalogHotReloadState,
    announced: Vec<String>,
)
    ensures
        final(hot_reload).forced_asset_ids == old(hot_reload).forced_asset_ids,
        opt_str_view(final(hot_reload).pending_catalog_version) == pending_version_after(
            opt_str_view(*catalog_version),
            opt_str_view(old(hot_reload).pending_catalog_version),
            str_views(announced@),
        ),
{
    let ghost a = str_views(announced@);
    let ghost cur = opt_str_view(*catalog_version);
    let ghost start = opt_str_view(hot_reload.pending_catalog_version);
    let mut i: usize = 0;
    assert(a.take(0) =~= Seq::<Seq<char>>::empty());
    while i < announced.len()
        invariant
            a == str_views(announced@),
            cur == opt_str_view(*catalog_version),
            i <= announced@.len(),
            hot_reload.forced_asset_ids == old(hot_reload).forced_asset_ids,
            opt_str_view(hot_reload.pending_catalog_version) == pending_version_after(cur, start, a.take(i as int)),
        decreases announced.len() - i,
    {
        let v = &announced[i];
        assert(a.take(i + 1).drop_last() =~= a.take(i as int));
        assert(a.take(i + 1).last() == v@);
        let same = match catalog_version {
            Some(c) => *c == *v,
            None => false,
        };
        if !same {
            hot_reload.pending_catalog_version = Some(v.clone());
        }
        i = i + 1;
    }
    assert(a.take(i as int) =~= a);
}

} // verus!
