//! Which runtime assets the world needs: referenced and forced ids and their catalog closure.

use vstd::prelude::*;
use crate::assets::{
    AssetCatalogHotReloadState, RuntimeAssetCatalogRecord, catalog_wf, in_catalog, str_views,
    opt_str_view, reachable_from, is_dependency_path, find_catalog_entry, contains_string,
    expand_catalog_dependencies,
};
use crate::asset_cache::LocalAssetManager;
use crate::text::{is_blank, is_blank_str};
use crate::render_layers::{lex_lt, str_lex_lt, lemma_lex_lt_irreflexive, lemma_lex_lt_transitive};
use std::collections::hash_map::DefaultHasher;
use std::hash::{Hash, Hasher};
use vstd::std_specs::hash::DefaultHasherAdditionalSpecFns;

verus! {

/// Adds a referenced asset id; absent and blank references add nothing, and an id is held once.
pub fn insert_asset_id(asset_ids: &mut Vec<String>, maybe_asset_id: Option<&String>)
    ensures
        match maybe_asset_id {
            Some(a) => if !is_blank(a@) && !str_views(old(asset_ids)@).contains(a@) {
                str_views(final(asset_ids)@) == str_views(old(asset_ids)@).push(a@)
            } else {
                final(asset_ids)@ == old(asset_ids)@
            },
            None => final(asset_ids)@ == old(asset_ids)@,
        },
{
    match maybe_asset_id {
        Some(a) => {
            if !is_blank_str(a.as_str()) && !contains_string(asset_ids, a) {
                let ghost before = str_views(asset_ids@);
                asset_ids.push(a.clone());
                assert(str_views(asset_ids@) =~= before.push(a@));
            }
        },
        None => {},
    }
}

/// The forced ids that the catalog knows, in order.
pub open spec fn forced_seeds(cat: Seq<RuntimeAssetCatalogRecord>, forced: Seq<Seq<char>>) -> Seq<Seq<char>>
    decreases forced.len(),
{
    if forced.len() == 0 {
        Seq::empty()
    } else {
        let p = forced_seeds(cat, forced.drop_last());
        if in_catalog(cat, forced.last()) {
            p.push(forced.last())
        } else {
            p
        }
    }
}

/// The references that name an asset: present and not blank, in order.
pub open spec fn reference_seeds(refs: Seq<Option<Seq<char>>>) -> Seq<Seq<char>>
    decreases refs.len(),
{
    if refs.len() == 0 {
        Seq::empty()
    } else {
        let p = reference_seeds(refs.drop_last());
        match refs.last() {
            Some(a) => if !is_blank(a) {
                p.push(a)
            } else {
                p
            },
            None => p,
        }
    }
}

/// The optional strings, as characters.
pub open spec fn opt_views(refs: Seq<Option<String>>) -> Seq<Option<Seq<char>>> {
    refs.map_values(|o: Option<String>| opt_str_view(o))
}

/// Where the dependency closure starts: the forced ids in the catalog, then the references.
pub open spec fn candidate_seeds(
    cat: Seq<RuntimeAssetCatalogRecord>,
    forced: Seq<Seq<char>>,
    refs: Seq<Option<Seq<char>>>,
) -> Seq<Seq<char>> {
    forced_seeds(cat, forced) + reference_seeds(refs)
}

/// Reachability depends on the seeds only through which ids they hold.
pub proof fn lemma_reachable_same_seeds(
    cat: Seq<RuntimeAssetCatalogRecord>,
    s1: Seq<Seq<char>>,
    s2: Seq<Seq<char>>,
    x: Seq<char>,
)
    requires
        forall|y: Seq<char>| s1.contains(y) <==> s2.contains(y),
    ensures
        reachable_from(cat, s1, x) <==> reachable_from(cat, s2, x),
{
    if reachable_from(cat, s1, x) {
        let path = choose|path: Seq<Seq<char>>|
            path.len() > 0 && s1.contains(path[0]) && path.last() == x && #[trigger] is_dependency_path(cat, path);
        assert(s2.contains(path[0]));
    }
    if reachable_from(cat, s2, x) {
        let path = choose|path: Seq<Seq<char>>|
            path.len() > 0 && s2.contains(path[0]) && path.last() == x && #[trigger] is_dependency_path(cat, path);
        assert(s1.contains(path[0]));
    }
}

/// An id is in `s` with `a` appended exactly when it is `a` or already in `s`.
pub proof fn lemma_push_contains(s: Seq<Seq<char>>, a: Seq<char>, x: Seq<char>)
    ensures
        s.push(a).contains(x) <==> (s.contains(x) || x == a),
{
    if s.push(a).contains(x) {
        let q = choose|q: int| 0 <= q < s.push(a).len() && s.push(a)[q] == x;
        if q < s.len() {
            assert(s[q] == x);
        }
    }
    if s.contains(x) {
        let q = choose|q: int| 0 <= q < s.len() && s[q] == x;
        assert(s.push(a)[q] == x);
    }
    if x == a {
        assert(s.push(a)[s.len() as int] == x);
    }
}

proof fn lemma_concat_contains(s: Seq<Seq<char>>, t: Seq<Seq<char>>, x: Seq<char>)
    ensures
        (s + t).contains(x) <==> (s.contains(x) || t.contains(x)),
{
    if (s + t).contains(x) {
        let q = choose|q: int| 0 <= q < (s + t).len() && (s + t)[q] == x;
        if q < s.len() {
            assert(s[q] == x);
        } else {
            assert(t[q - s.len()] == x);
        }
    }
    if s.contains(x) {
        let q = choose|q: int| 0 <= q < s.len() && s[q] == x;
        assert((s + t)[q] == x);
    }
    if t.contains(x) {
        let q = choose|q: int| 0 <= q < t.len() && t[q] == x;
        assert((s + t)[s.len() + q] == x);
    }
}

/// The assets the world needs: the forced ids that the catalog knows and the non-blank
/// references, with everything they depend on. Each id occurs once.
pub fn collect_runtime_asset_dependency_candidates(
    asset_manager: &LocalAssetManager,
    forced_asset_ids: &Vec<String>,
    referenced_asset_ids: &Vec<Option<String>>,
) -> (r: Vec<String>)
    requires
        asset_manager.wf(),
    ensures
        str_views(r@).no_duplicates(),
        forall|x: Seq<char>| str_views(r@).contains(x) <==> reachable_from(
            asset_manager.catalog(),
            candidate_seeds(asset_manager.catalog(), str_views(forced_asset_ids@), opt_views(referenced_asset_ids@)),
            x,
        ),
{
    let ghost cat = asset_manager.catalog();
    let ghost fv = str_views(forced_asset_ids@);
    let ghost rv = opt_views(referenced_asset_ids@);
    let mut seeds: Vec<String> = Vec::new();
    let mut i: usize = 0;
    assert(fv.take(0) =~= Seq::<Seq<char>>::empty());
    while i < forced_asset_ids.len()
        invariant
            asset_manager.wf(),
            cat == asset_manager.catalog(),
            fv == str_views(forced_asset_ids@),
            i <= forced_asset_ids@.len(),
            forall|x: Seq<char>| str_views(seeds@).contains(x) <==> forced_seeds(cat, fv.take(i as int)).contains(x),
        decreases forced_asset_ids.len() - i,
    {
        let f = &forced_asset_ids[i];
        assert(fv.take(i + 1).drop_last() =~= fv.take(i as int));
        assert(fv.take(i + 1).last() == f@);
        let ghost before = str_views(seeds@);
        let ghost fs = forced_seeds(cat, fv.take(i as int));
        if find_catalog_entry(&asset_manager.catalog_by_asset_id, f).is_some() {
            if !contains_string(&seeds, f) {
                seeds.push(f.clone());
                assert(str_views(seeds@) =~= before.push(f@));
            }
            proof {
                assert forall|x: Seq<char>| str_views(seeds@).contains(x) <==> fs.push(f@).contains(x) by {
                    lemma_push_contains(fs, f@, x);
                    lemma_push_contains(before, f@, x);
                }
            }
        }
        i = i + 1;
    }
    assert(fv.take(i as int) =~= fv);
    let ghost fseeds = forced_seeds(cat, fv);
    let mut j: usize = 0;
    assert(rv.take(0) =~= Seq::<Option<Seq<char>>>::empty());
    while j < referenced_asset_ids.len()
        invariant
            asset_manager.wf(),
            cat == asset_manager.catalog(),
            rv == opt_views(referenced_asset_ids@),
            fseeds == forced_seeds(cat, fv),
            j <= referenced_asset_ids@.len(),
            forall|x: Seq<char>| str_views(seeds@).contains(x) <==> (fseeds.contains(x) || reference_seeds(
                rv.take(j as int),
            ).contains(x)),
        decreases referenced_asset_ids.len() - j,
    {
        let ghost before = str_views(seeds@);
        let ghost rs = reference_seeds(rv.take(j as int));
        assert(rv.take(j + 1).drop_last() =~= rv.take(j as int));
        assert(rv.take(j + 1).last() == opt_str_view(referenced_asset_ids@[j as int]));
        insert_asset_id(&mut seeds, referenced_asset_ids[j].as_ref());
        proof {
            let rs2 = reference_seeds(rv.take(j + 1));
            let after = str_views(seeds@);
            assert(forall|x: Seq<char>| before.contains(x) <==> (fseeds.contains(x) || rs.contains(x)));
            match referenced_asset_ids@[j as int] {
                Some(a) => {
                    assert(rv.take(j + 1).last() == Some(a@));
                    if !is_blank(a@) {
                        assert(rs2 == rs.push(a@));
                        assert forall|x: Seq<char>| after.contains(x) <==> (fseeds.contains(x)
                            || rs2.contains(x)) by {
                            lemma_push_contains(rs, a@, x);
                            lemma_push_contains(before, a@, x);
                        }
                    } else {
                        assert(rs2 == rs);
                        assert(after == before);
                    }
                },
                None => {
                    assert(rs2 == rs);
                    assert(after == before);
                },
            }
        }
        j = j + 1;
    }
    assert(rv.take(j as int) =~= rv);
    let ghost sv = str_views(seeds@);
    let r = expand_catalog_dependencies(seeds, &asset_manager.catalog_by_asset_id);
    proof {
        let cs = candidate_seeds(cat, fv, rv);
        assert forall|x: Seq<char>| str_views(r@).contains(x) <==> reachable_from(cat, cs, x) by {
            assert forall|y: Seq<char>| sv.contains(y) <==> cs.contains(y) by {
                lemma_concat_contains(fseeds, reference_seeds(rv), y);
            }
            lemma_reachable_same_seeds(cat, sv, cs, x);
        }
    }
    r
}

/// What the dependency scan last computed, with counters of its runs.
#[derive(Debug)]
pub struct RuntimeAssetDependencyState {
    pub candidate_asset_ids: Vec<String>,
    pub catalog_reload_generation: u64,
    pub forced_asset_ids_signature: u64,
    pub dependency_graph_rebuilds: u64,
    pub dependency_scan_runs: u64,
}

/// Whether the asset references in the world changed since the last scan.
#[derive(Debug)]
pub struct RuntimeAssetDependencyDirtyState {
    pub dirty: bool,
}

impl RuntimeAssetDependencyState {
    /// No candidates and no runs yet.
    pub fn new() -> (r: Self)
        ensures
            r.candidate_asset_ids@.len() == 0,
            r.catalog_reload_generation == 0,
            r.forced_asset_ids_signature == 0,
            r.dependency_graph_rebuilds == 0,
            r.dependency_scan_runs == 0,
    {
        RuntimeAssetDependencyState {
            candidate_asset_ids: Vec::new(),
            catalog_reload_generation: 0,
            forced_asset_ids_signature: 0,
            dependency_graph_rebuilds: 0,
            dependency_scan_runs: 0,
        }
    }
}

impl RuntimeAssetDependencyDirtyState {
    /// A fresh state is dirty, so that the first scan runs.
    pub fn new() -> (r: Self)
        ensures
            r.dirty,
    {
        RuntimeAssetDependencyDirtyState { dirty: true }
    }
}

/// Marks the scan dirty when an asset reference in the world was added, changed or removed.
pub fn mark_runtime_asset_dependency_state_dirty(dirty_state: &mut RuntimeAssetDependencyDirtyState, changed: bool)
    ensures
        final(dirty_state).dirty == (old(dirty_state).dirty || changed),
{
    if changed {
        dirty_state.dirty = true;
    }
}

/// Whether the dependency scan has to recompute the candidates.
pub open spec fn dependency_inputs_changed(
    dep: &RuntimeAssetDependencyState,
    dirty: bool,
    reload_generation: u64,
    forced_signature: u64,
) -> bool {
    dirty || reload_generation != dep.catalog_reload_generation || forced_signature
        != dep.forced_asset_ids_signature
}

/// Runs the dependency scan: counts the run, and when the references are dirty, the catalog
/// was reloaded or the forced ids changed (by their signature), recomputes the candidates,
/// remembers the generation and signature, counts a rebuild and clears the dirty flag.
pub fn sync_runtime_asset_dependency_state(
    dependency_state: &mut RuntimeAssetDependencyState,
    dirty_state: &mut RuntimeAssetDependencyDirtyState,
    asset_manager: &LocalAssetManager,
    hot_reload: &AssetCatalogHotReloadState,
    forced_asset_ids_signature: u64,
    referenced_asset_ids: &Vec<Option<String>>,
) -> (rebuilt: bool)
    requires
        asset_manager.wf(),
    ensures
        rebuilt == dependency_inputs_changed(
            &*old(dependency_state),
            old(dirty_state).dirty,
            asset_manager.reload_generation,
            forced_asset_ids_signature,
        ),
        final(dependency_state).dependency_scan_runs == old(dependency_state).dependency_scan_runs.saturating_add(1),
        !rebuilt ==> {
            &&& final(dependency_state).candidate_asset_ids == old(dependency_state).candidate_asset_ids
            &&& final(dependency_state).catalog_reload_generation == old(dependency_state).catalog_reload_generation
            &&& final(dependency_state).forced_asset_ids_signature == old(dependency_state).forced_asset_ids_signature
            &&& final(dependency_state).dependency_graph_rebuilds == old(dependency_state).dependency_graph_rebuilds
            &&& final(dirty_state).dirty == old(dirty_state).dirty
        },
        rebuilt ==> {
            &&& str_views(final(dependency_state).candidate_asset_ids@).no_duplicates()
            &&& forall|x: Seq<char>| str_views(final(dependency_state).candidate_asset_ids@).contains(x)
                <==> reachable_from(
                    asset_manager.catalog(),
                    candidate_seeds(
                        asset_manager.catalog(),
                        str_views(hot_reload.forced_asset_ids@),
                        opt_views(referenced_asset_ids@),
                    ),
                    x,
                )
            &&& final(dependency_state).catalog_reload_generation == asset_manager.reload_generation
            &&& final(dependency_state).forced_asset_ids_signature == forced_asset_ids_signature
            &&& final(dependency_state).dependency_graph_rebuilds
                == old(dependency_state).dependency_graph_rebuilds.saturating_add(1)
            &&& !final(dirty_state).dirty
        },
{
    dependency_state.dependency_scan_runs = dependency_state.dependency_scan_runs.saturating_add(1);
    let changed = dirty_state.dirty || asset_manager.reload_generation != dependency_state.catalog_reload_generation
        || forced_asset_ids_signature != dependency_state.forced_asset_ids_signature;
    if !changed {
        return false;
    }
    dependency_state.candidate_asset_ids = collect_runtime_asset_dependency_candidates(
        asset_manager,
        &hot_reload.forced_asset_ids,
        referenced_asset_ids,
    );
    dependency_state.catalog_reload_generation = asset_manager.reload_generation;
    dependency_state.forced_asset_ids_signature = forced_asset_ids_signature;
    dependency_state.dependency_graph_rebuilds = dependency_state.dependency_graph_rebuilds.saturating_add(1);
    dirty_state.dirty = false;
    true
}


/// The ids in code point order (that of `String`'s `Ord`): the same ids, each as often as given.
pub fn sorted_asset_ids(ids: Vec<String>) -> (r: Vec<String>)
    ensures
        r@.to_multiset() == ids@.to_multiset(),
        forall|i: int, j: int| 0 <= i < j < r@.len() ==> !lex_lt(#[trigger] r@[j]@, #[trigger] r@[i]@),
{
    broadcast use vstd::seq_lib::group_to_multiset_ensures;
    let ghost orig = ids@;
    let mut rest = ids;
    let mut out: Vec<String> = Vec::new();
    assert(out@.to_multiset().add(rest@.to_multiset()) =~= orig.to_multiset());
    while rest.len() > 0
        invariant
            out@.to_multiset().add(rest@.to_multiset()) == orig.to_multiset(),
            forall|i: int, j: int| 0 <= i < j < out@.len() ==> !lex_lt(#[trigger] out@[j]@, #[trigger] out@[i]@),
            forall|i: int, k: int| 0 <= i < out@.len() && 0 <= k < rest@.len() ==> !lex_lt(
                #[trigger] rest@[k]@,
                #[trigger] out@[i]@,
            ),
        decreases rest.len(),
    {
        let mut best: usize = 0;
        let mut k: usize = 1;
        proof {
            lemma_lex_lt_irreflexive(rest@[0]@);
        }
        while k < rest.len()
            invariant
                0 < rest@.len(),
                best < rest@.len(),
                1 <= k <= rest@.len(),
                forall|y: int| 0 <= y < k ==> !lex_lt(#[trigger] rest@[y]@, rest@[best as int]@),
            decreases rest.len() - k,
        {
            if str_lex_lt(&rest[k], &rest[best]) {
                proof {
                    assert forall|y: int| 0 <= y < k + 1 implies !lex_lt(#[trigger] rest@[y]@, rest@[k as int]@) by {
                        if y < k && lex_lt(rest@[y]@, rest@[k as int]@) {
                            lemma_lex_lt_transitive(rest@[y]@, rest@[k as int]@, rest@[best as int]@);
                        }
                        if y == k {
                            if lex_lt(rest@[y]@, rest@[y]@) {
                                lemma_lex_lt_irreflexive(rest@[y]@);
                            }
                        }
                    }
                }
                best = k;
            }
            k = k + 1;
        }
        let ghost before_rest = rest@;
        let ghost before_out = out@;
        let x = rest.remove(best);
        assert(rest@ =~= before_rest.remove(best as int));
        out.push(x);
        proof {
            assert(out@ =~= before_out.push(x));
            vstd::seq_lib::to_multiset_build(before_out, x);
            vstd::seq_lib::to_multiset_remove(before_rest, best as int);
            assert(before_rest[best as int] == x);
            assert(before_rest.contains(x));
            vstd::seq_lib::to_multiset_contains(before_rest, x);
            assert(out@.to_multiset().add(rest@.to_multiset()) =~= before_out.to_multiset().add(
                before_rest.to_multiset(),
            ));
            assert forall|i: int, k2: int| 0 <= i < out@.len() && 0 <= k2 < rest@.len() implies !lex_lt(
                #[trigger] rest@[k2]@,
                #[trigger] out@[i]@,
            ) by {
                let src = if k2 < best { k2 } else { k2 + 1 };
                assert(rest@[k2] == before_rest[src]);
                if i < before_out.len() {
                    assert(out@[i] == before_out[i]);
                }
            }
            assert forall|i: int, j: int| 0 <= i < j < out@.len() implies !lex_lt(#[trigger] out@[j]@, #[trigger] out@[i]@) by {
                if j < before_out.len() {
                    assert(out@[j] == before_out[j]);
                    assert(out@[i] == before_out[i]);
                } else {
                    assert(out@[i] == before_out[i]);
                    assert(out@[j] == before_rest[best as int]);
                }
            }
        }
    }
    assert(rest@.to_multiset() =~= vstd::multiset::Multiset::<String>::empty());
    assert(out@.to_multiset() =~= orig.to_multiset());
    out
}

/// The writes that `Hash for String` makes into a hasher for a string with these characters:
/// they depend on the string alone.
pub uninterp spec fn string_hash_writes(s: Seq<char>) -> Seq<Seq<u8>>;

/// The writes made by hashing the strings in order.
pub open spec fn ids_hash_writes(s: Seq<String>) -> Seq<Seq<u8>>
    decreases s.len(),
{
    if s.len() == 0 {
        Seq::empty()
    } else {
        ids_hash_writes(s.drop_last()) + string_hash_writes(s.last()@)
    }
}

/// Feeds an asset id to the hasher, with `Hash for String`.
/// Trusted: the hasher's view (vstd's model of `DefaultHasher`: the sequence of writes made
/// to it) is extended by the writes `string_hash_writes` of the id's characters; which bytes
/// those are is left to the name.
#[verifier::external_body]
fn hash_asset_id(hasher: &mut DefaultHasher, asset_id: &String)
    ensures
        final(hasher)@ == old(hasher)@ + string_hash_writes(asset_id@),
{
    asset_id.hash(hasher);
}

/// A signature of a set of asset ids, to notice when the forced downloads change: the ids in
/// code point order fed to std's default hasher (the dependency scan takes it as an input).
pub fn hash_asset_ids(asset_ids: &Vec<String>) -> (r: u64)
    ensures
        exists|s: Seq<String>|
            #![trigger ids_hash_writes(s)]
            s.to_multiset() == asset_ids@.to_multiset() && (forall|i: int, j: int|
                0 <= i < j < s.len() ==> !lex_lt(#[trigger] s[j]@, #[trigger] s[i]@)) && r == DefaultHasher::spec_finish(
                ids_hash_writes(s),
            ),
{
    let sorted = sorted_asset_ids(asset_ids.clone());
    let mut hasher = DefaultHasher::new();
    let mut i: usize = 0;
    assert(sorted@.take(0) =~= Seq::<String>::empty());
    while i < sorted.len()
        invariant
            i <= sorted@.len(),
            hasher@ == ids_hash_writes(sorted@.take(i as int)),
        decreases sorted.len() - i,
    {
        assert(sorted@.take(i + 1).drop_last() =~= sorted@.take(i as int));
        hash_asset_id(&mut hasher, &sorted[i]);
        i = i + 1;
    }
    assert(sorted@.take(i as int) =~= sorted@);
    let r = hasher.finish();
    assert(sorted@.to_multiset() == asset_ids@.to_multiset());
    r
}

} // verus!
