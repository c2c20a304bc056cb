//! Guards on replicated entity structure: parent links that would make transform propagation
//! loop, and copies that carry both the predicted and the interpolated marker.

use vstd::prelude::*;

verus! {

/// How far up a parent chain the cycle check walks.
pub const MAX_HIERARCHY_DEPTH: usize = 256;

/// The parent of `e`: the last link whose child is `e`, as a map keyed by child keeps it.
pub open spec fn parent_of(links: Seq<(u64, u64)>, e: u64) -> Option<u64>
    decreases links.len(),
{
    if links.len() == 0 {
        None
    } else if links.last().0 == e {
        Some(links.last().1)
    } else {
        parent_of(links.drop_last(), e)
    }
}

/// Whether the walk up from `cursor`, having passed the entities in `seen`, comes back to
/// `child` or to an entity already passed within `fuel` steps.
pub open spec fn walk_finds_cycle(links: Seq<(u64, u64)>, child: u64, cursor: u64, seen: Seq<u64>, fuel: nat) -> bool
    decreases fuel,
{
    if fuel == 0 {
        false
    } else if seen.contains(cursor) {
        true
    } else {
        match parent_of(links, cursor) {
            None => false,
            Some(next) => if next == child {
                true
            } else {
                walk_finds_cycle(links, child, next, seen.push(cursor), (fuel - 1) as nat)
            },
        }
    }
}

/// Whether the parent link of `child` is removed: it is its own parent, or the walk up from
/// its parent (at most `MAX_HIERARCHY_DEPTH` steps) returns to it or runs into a loop.
pub open spec fn unlink_spec(links: Seq<(u64, u64)>, child: u64) -> bool {
    match parent_of(links, child) {
        None => false,
        Some(p) => p == child || walk_finds_cycle(links, child, p, Seq::empty(), MAX_HIERARCHY_DEPTH as nat),
    }
}

/// No later link has the same child: this link is the one a map keyed by child keeps.
pub open spec fn last_occurrence(links: Seq<(u64, u64)>, j: int) -> bool {
    forall|k: int| j < k < links.len() ==> #[trigger] links[k].0 != links[j].0
}

proof fn lemma_last_occurrence_parent(links: Seq<(u64, u64)>, j: int)
    requires
        0 <= j < links.len(),
        last_occurrence(links, j),
    ensures
        parent_of(links, links[j].0) == Some(links[j].1),
    decreases links.len(),
{
    if j < links.len() - 1 {
        assert(links[links.len() - 1].0 != links[j].0);
        let d = links.drop_last();
        assert(d[j] == links[j]);
        assert forall|k: int| j < k < d.len() implies #[trigger] d[k].0 != d[j].0 by {
            assert(d[k] == links[k]);
        }
        lemma_last_occurrence_parent(d, j);
    }
}

proof fn lemma_parent_has_last_occurrence(links: Seq<(u64, u64)>, e: u64)
    requires
        parent_of(links, e) is Some,
    ensures
        exists|j: int| 0 <= j < links.len() && #[trigger] links[j].0 == e && last_occurrence(links, j),
    decreases links.len(),
{
    let n = links.len() as int;
    if links.last().0 == e {
        assert(links[n - 1].0 == e && last_occurrence(links, n - 1));
    } else {
        let d = links.drop_last();
        lemma_parent_has_last_occurrence(d, e);
        let j = choose|j: int| 0 <= j < d.len() && #[trigger] d[j].0 == e && last_occurrence(d, j);
        assert(links[j] == d[j]);
        assert forall|k: int| j < k < n implies #[trigger] links[k].0 != links[j].0 by {
            if k < n - 1 {
                assert(links[k] == d[k]);
            }
        }
        assert(links[j].0 == e && last_occurrence(links, j));
    }
}

/// The parent of `e` (see `parent_of`).
fn find_parent(links: &Vec<(u64, u64)>, e: u64) -> (r: Option<u64>)
    ensures
        r == parent_of(links@, e),
{
    let ghost s = links@;
    let mut i: usize = links.len();
    assert(s.take(s.len() as int) =~= s);
    while i > 0
        invariant
            s == links@,
            i <= s.len(),
            parent_of(s, e) == parent_of(s.take(i as int), e),
        decreases i,
    {
        let ghost t = s.take(i as int);
        assert(t.drop_last() =~= s.take(i - 1));
        assert(t.last() == s[i - 1]);
        let (c, p) = links[i - 1];
        if c == e {
            return Some(p);
        }
        i = i - 1;
    }
    None
}

/// Whether `v` holds `x`.
fn holds(v: &Vec<u64>, x: u64) -> (r: bool)
    ensures
        r == v@.contains(x),
{
    let mut i: usize = 0;
    while i < v.len()
        invariant
            i <= v@.len(),
            forall|j: int| 0 <= j < i ==> v@[j] != x,
        decreases v.len() - i,
    {
        if v[i] == x {
            return true;
        }
        i = i + 1;
    }
    false
}

/// Whether the parent link of `child`, whose parent is `parent`, must be removed (see
/// `unlink_spec`).
fn link_is_invalid(links: &Vec<(u64, u64)>, child: u64, parent: u64) -> (r: bool)
    requires
        parent_of(links@, child) == Some(parent),
    ensures
        r == unlink_spec(links@, child),
{
    if child == parent {
        return true;
    }
    let ghost w0 = walk_finds_cycle(links@, child, parent, Seq::empty(), MAX_HIERARCHY_DEPTH as nat);
    let mut seen: Vec<u64> = Vec::new();
    let mut cursor = parent;
    let mut fuel: usize = MAX_HIERARCHY_DEPTH;
    let mut done = false;
    let mut cycle = false;
    assert(seen@ =~= Seq::<u64>::empty());
    while !done && fuel > 0
        invariant
            fuel <= MAX_HIERARCHY_DEPTH,
            !done ==> !cycle && w0 == walk_finds_cycle(links@, child, cursor, seen@, fuel as nat),
            done ==> cycle == w0,
        decreases fuel as int + if done { 0int } else { 1int },
    {
        if holds(&seen, cursor) {
            cycle = true;
            done = true;
        } else {
            match find_parent(links, cursor) {
                None => {
                    done = true;
                },
                Some(next) => {
                    if next == child {
                        cycle = true;
                        done = true;
                    } else {
                        seen.push(cursor);
                        cursor = next;
                        fuel = fuel - 1;
                    }
                },
            }
        }
    }
    cycle
}

/// The children whose parent link must be removed before transform propagation: each child
/// once, exactly those of `unlink_spec`. `links` holds the parent links as (child, parent)
/// entity bits; for a child linked twice, the later link counts.
pub fn sanitize_invalid_childof_hierarchy_links(links: &Vec<(u64, u64)>) -> (r: Vec<u64>)
    ensures
        r@.no_duplicates(),
        forall|x: u64| r@.contains(x) <==> unlink_spec(links@, x),
{
    let ghost s = links@;
    let mut r: Vec<u64> = Vec::new();
    let mut i: usize = 0;
    while i < links.len()
        invariant
            s == links@,
            i <= s.len(),
            r@.no_duplicates(),
            forall|x: u64| r@.contains(x) <==> exists|j: int|
                0 <= j < i && #[trigger] s[j].0 == x && last_occurrence(s, j) && unlink_spec(s, x),
        decreases links.len() - i,
    {
        let (child, parent) = links[i];
        let mut later = false;
        let mut k: usize = i + 1;
        while k < links.len()
            invariant
                s == links@,
                i < k <= s.len(),
                s[i as int].0 == child,
                later == exists|q: int| i < q < k && #[trigger] s[q].0 == child,
            decreases links.len() - k,
        {
            if links[k].0 == child {
                later = true;
            }
            k = k + 1;
        }
        assert(last_occurrence(s, i as int) == !later);
        if !later {
            proof {
                lemma_last_occurrence_parent(s, i as int);
            }
            if link_is_invalid(links, child, parent) {
                let ghost r0 = r@;
                assert(!r0.contains(child)) by {
                    if r0.contains(child) {
                        let j = choose|j: int| 0 <= j < i && #[trigger] s[j].0 == child && last_occurrence(s, j) && unlink_spec(s, child);
                        assert(s[i as int].0 == s[j].0);
                    }
                }
                r.push(child);
                assert(unlink_spec(s, child));
                assert forall|x: u64| r@.contains(x) <==> exists|j: int|
                    0 <= j < i + 1 && #[trigger] s[j].0 == x && last_occurrence(s, j) && unlink_spec(s, x) by {
                    if r@.contains(x) {
                        if x == child {
                            assert(s[i as int].0 == x && last_occurrence(s, i as int) && unlink_spec(s, x));
                        } else {
                            let q = choose|q: int| 0 <= q < r@.len() && r@[q] == x;
                            assert(q < r0.len());
                            assert(r0[q] == x);
                            assert(r0.contains(x));
                        }
                    }
                    if exists|j: int| 0 <= j < i + 1 && #[trigger] s[j].0 == x && last_occurrence(s, j) && unlink_spec(s, x) {
                        let j = choose|j: int| 0 <= j < i + 1 && #[trigger] s[j].0 == x && last_occurrence(s, j) && unlink_spec(s, x);
                        if j < i {
                            assert(r0.contains(x));
                            let q = choose|q: int| 0 <= q < r0.len() && r0[q] == x;
                            assert(r@[q] == x);
                        } else {
                            assert(r@[r0.len() as int] == x);
                        }
                    }
                }
            }
        }
        i = i + 1;
    }
    proof {
        assert forall|x: u64| unlink_spec(s, x) implies r@.contains(x) by {
            lemma_parent_has_last_occurrence(s, x);
        }
    }
    r
}

/// `c` is a loop of parent links: each entity's parent is the next, and the last one's is the
/// first.
pub open spec fn is_parent_cycle(links: Seq<(u64, u64)>, c: Seq<u64>) -> bool {
    &&& c.len() > 0
    &&& forall|i: int| 0 <= i < c.len() - 1 ==> parent_of(links, #[trigger] c[i]) == Some(c[i + 1])
    &&& parent_of(links, c.last()) == Some(c[0])
}

proof fn lemma_walk_on_cycle(links: Seq<(u64, u64)>, c: Seq<u64>, k: int, seen: Seq<u64>, fuel: nat)
    requires
        is_parent_cycle(links, c),
        1 <= k < c.len(),
        fuel >= c.len() - k,
    ensures
        walk_finds_cycle(links, c[0], c[k], seen, fuel),
    decreases c.len() - k,
{
    if !seen.contains(c[k]) {
        if k == c.len() - 1 {
            assert(parent_of(links, c[k]) == Some(c[0]));
        } else {
            assert(parent_of(links, c[k]) == Some(c[k + 1]));
            if c[k + 1] != c[0] {
                lemma_walk_on_cycle(links, c, k + 1, seen.push(c[k]), (fuel - 1) as nat);
            }
        }
    }
}

proof fn lemma_cycle_rotation(links: Seq<(u64, u64)>, c: Seq<u64>, m: int)
    requires
        is_parent_cycle(links, c),
        0 <= m < c.len(),
    ensures
        is_parent_cycle(links, c.subrange(m, c.len() as int) + c.subrange(0, m)),
        (c.subrange(m, c.len() as int) + c.subrange(0, m))[0] == c[m],
        (c.subrange(m, c.len() as int) + c.subrange(0, m)).len() == c.len(),
{
    let n = c.len();
    let r = c.subrange(m, n as int) + c.subrange(0, m);
    assert forall|i: int| 0 <= i < r.len() - 1 implies parent_of(links, #[trigger] r[i]) == Some(r[i + 1]) by {
        if i + m + 1 < n {
            assert(r[i] == c[i + m]);
            assert(r[i + 1] == c[i + m + 1]);
        } else if i + m + 1 == n {
            assert(r[i] == c[n - 1]);
            assert(r[i + 1] == c[0]);
        } else {
            assert(r[i] == c[i + m - n]);
            assert(r[i + 1] == c[i + m + 1 - n]);
        }
    }
    if m == 0 {
        assert(r.last() == c[n - 1]);
        assert(r[0] == c[0]);
    } else {
        assert(r.last() == c[m - 1]);
        assert(r[0] == c[m]);
    }
}

/// The sanitizer breaks every loop of parent links of at most `MAX_HIERARCHY_DEPTH` entities:
/// the parent link of each entity on it is removed, so none of them remains.
pub proof fn lemma_sanitizer_breaks_short_cycles(links: Seq<(u64, u64)>, c: Seq<u64>)
    requires
        is_parent_cycle(links, c),
        c.len() <= MAX_HIERARCHY_DEPTH,
    ensures
        forall|i: int| 0 <= i < c.len() ==> unlink_spec(links, #[trigger] c[i]),
{
    assert forall|m: int| 0 <= m < c.len() implies unlink_spec(links, #[trigger] c[m]) by {
        lemma_cycle_rotation(links, c, m);
        let r = c.subrange(m, c.len() as int) + c.subrange(0, m);
        if r.len() == 1 {
            assert(parent_of(links, r.last()) == Some(r[0]));
            assert(r.last() == r[0]);
        } else {
            assert(parent_of(links, r[0]) == Some(r[1]));
            if r[1] != r[0] {
                lemma_walk_on_cycle(links, r, 1, Seq::empty(), MAX_HIERARCHY_DEPTH as nat);
            }
        }
    }
}

/// The parent links that stay once the links of the `removed` children are removed.
pub open spec fn kept_links(links: Seq<(u64, u64)>, removed: Seq<u64>) -> Seq<(u64, u64)> {
    links.filter(|l: (u64, u64)| !removed.contains(l.0))
}

proof fn lemma_kept_parent(links: Seq<(u64, u64)>, removed: Seq<u64>, e: u64)
    ensures
        parent_of(kept_links(links, removed), e) == if removed.contains(e) { None } else { parent_of(links, e) },
    decreases links.len(),
{
    reveal(Seq::filter);
    if links.len() > 0 {
        let d = links.drop_last();
        lemma_kept_parent(d, removed, e);
        let kd = kept_links(d, removed);
        let l = links.last();
        assert(kept_links(links, removed) == if !removed.contains(l.0) { kd.push(l) } else { kd });
        assert(kd.push(l).drop_last() =~= kd);
        assert(kd.push(l).last() == l);
    }
}

/// Once the sanitizer's links are removed (`removed` holds exactly the children it returns),
/// no loop of parent links of at most `MAX_HIERARCHY_DEPTH` entities remains.
pub proof fn lemma_no_short_cycle_after_sanitize(links: Seq<(u64, u64)>, removed: Seq<u64>, c: Seq<u64>)
    requires
        forall|x: u64| removed.contains(x) <==> unlink_spec(links, x),
        c.len() <= MAX_HIERARCHY_DEPTH,
    ensures
        !is_parent_cycle(kept_links(links, removed), c),
{
    let k = kept_links(links, removed);
    if is_parent_cycle(k, c) {
        assert forall|i: int| 0 <= i < c.len() - 1 implies parent_of(links, #[trigger] c[i]) == Some(c[i + 1]) by {
            lemma_kept_parent(links, removed, c[i]);
            assert(parent_of(k, c[i]) == Some(c[i + 1]));
        }
        lemma_kept_parent(links, removed, c.last());
        assert(is_parent_cycle(links, c));
        lemma_sanitizer_breaks_short_cycles(links, c);
        assert(unlink_spec(links, c[0]));
        lemma_kept_parent(links, removed, c[0]);
        if c.len() > 1 {
            assert(parent_of(k, c[0]) == Some(c[1]));
        } else {
            assert(c.last() == c[0]);
        }
    }
}

/// Which marker a copy that carries both the predicted and the interpolated marker keeps:
/// the predicted one for the local control entity (it is controlled or writes motion, or its
/// GUID is the control target's: the controlled entity's, else the player's own), the
/// interpolated one for any other. The GUIDs are what the id parser found in each id.
pub fn sanitize_conflicting_prediction_interpolation_markers_system(
    is_controlled: bool,
    is_motion_writer: bool,
    entity_guid: Option<u128>,
    controlled_entity_guid: Option<u128>,
    player_entity_guid: Option<u128>,
) -> (keep_predicted: bool)
    ensures
        keep_predicted == (is_controlled || is_motion_writer || ({
            let target = if controlled_entity_guid is Some { controlled_entity_guid } else { player_entity_guid };
            target is Some && entity_guid == target
        })),
{
    let target = match controlled_entity_guid {
        Some(g) => Some(g),
        None => player_entity_guid,
    };
    let guid_matches = match (target, entity_guid) {
        (Some(t), Some(e)) => t == e,
        _ => false,
    };
    is_controlled || is_motion_writer || guid_matches
}

} // verus!
