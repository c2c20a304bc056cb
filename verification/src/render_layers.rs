//! Runtime render layers: the order in which world rules apply, whether a rule matches an
//! entity, and which layer an entity is drawn in.

use vstd::prelude::*;
use crate::assets::{str_views, contains_string};

verus! {

/// A world rule, with its component kinds resolved to component ids.
#[derive(Debug)]
pub struct CompiledRuntimeRenderLayerRule {
    pub rule_id: String,
    pub target_layer_id: String,
    pub priority: i32,
    pub labels_any: Vec<String>,
    pub labels_all: Vec<String>,
    pub archetypes_any: Vec<String>,
    pub components_all: Vec<u64>,
    pub components_any: Vec<u64>,
}

/// `a` comes before `b` in code point order.
pub open spec fn lex_lt(a: Seq<char>, b: Seq<char>) -> bool
    decreases a.len(),
{
    if a.len() == 0 {
        b.len() > 0
    } else if b.len() == 0 {
        false
    } else if a[0] != b[0] {
        a[0] < b[0]
    } else {
        lex_lt(a.drop_first(), b.drop_first())
    }
}

/// No text comes before itself.
pub proof fn lemma_lex_lt_irreflexive(a: Seq<char>)
    ensures
        !lex_lt(a, a),
    decreases a.len(),
{
    if a.len() > 0 {
        lemma_lex_lt_irreflexive(a.drop_first());
    }
}

/// Code point order is transitive.
pub proof fn lemma_lex_lt_transitive(a: Seq<char>, b: Seq<char>, c: Seq<char>)
    requires
        lex_lt(a, b),
        lex_lt(b, c),
    ensures
        lex_lt(a, c),
    decreases a.len(),
{
    if a.len() > 0 && b.len() > 0 && c.len() > 0 && a[0] == b[0] && b[0] == c[0] {
        lemma_lex_lt_transitive(a.drop_first(), b.drop_first(), c.drop_first());
    }
}

/// Whether `a` comes before `b`.
pub fn str_lex_lt(a: &String, b: &String) -> (r: bool)
    ensures
        r == lex_lt(a@, b@),
{
    let x = crate::text::chars_of(a.as_str());
    let y = crate::text::chars_of(b.as_str());
    let mut i: usize = 0;
    assert(a@.skip(0) =~= a@);
    assert(b@.skip(0) =~= b@);
    while i < x.len() && i < y.len()
        invariant
            x@ == a@,
            y@ == b@,
            i <= x@.len(),
            i <= y@.len(),
            lex_lt(a@, b@) == lex_lt(a@.skip(i as int), b@.skip(i as int)),
        decreases x.len() - i,
    {
        let ghost sa = a@.skip(i as int);
        let ghost sb = b@.skip(i as int);
        assert(sa[0] == x@[i as int]);
        assert(sb[0] == y@[i as int]);
        if x[i] != y[i] {
            return x[i] < y[i];
        }
        assert(sa.drop_first() =~= a@.skip(i + 1));
        assert(sb.drop_first() =~= b@.skip(i + 1));
        i = i + 1;
    }
    i == x.len() && i < y.len()
}

/// `a` applies before `b`: a higher priority first, then the rule id in order.
pub open spec fn rule_lt(a: CompiledRuntimeRenderLayerRule, b: CompiledRuntimeRenderLayerRule) -> bool {
    a.priority > b.priority || (a.priority == b.priority && lex_lt(a.rule_id@, b.rule_id@))
}

/// No rule comes after a later one.
pub open spec fn rules_sorted(s: Seq<CompiledRuntimeRenderLayerRule>) -> bool {
    forall|i: int, j: int| 0 <= i < j < s.len() ==> !rule_lt(#[trigger] s[j], #[trigger] s[i])
}

proof fn lemma_rule_lt_strict(a: CompiledRuntimeRenderLayerRule, b: CompiledRuntimeRenderLayerRule, c: CompiledRuntimeRenderLayerRule)
    ensures
        !rule_lt(a, a),
        rule_lt(a, b) && rule_lt(b, c) ==> rule_lt(a, c),
{
    lemma_lex_lt_irreflexive(a.rule_id@);
    if rule_lt(a, b) && rule_lt(b, c) && a.priority == b.priority && b.priority == c.priority {
        lemma_lex_lt_transitive(a.rule_id@, b.rule_id@, c.rule_id@);
    }
}

/// Whether `a` applies before `b`.
pub fn rule_precedes(a: &CompiledRuntimeRenderLayerRule, b: &CompiledRuntimeRenderLayerRule) -> (r: bool)
    ensures
        r == rule_lt(*a, *b),
{
    a.priority > b.priority || (a.priority == b.priority && str_lex_lt(&a.rule_id, &b.rule_id))
}

/// The order key of a rule: its priority and rule id.
pub open spec fn rule_key(r: CompiledRuntimeRenderLayerRule) -> (i32, Seq<char>) {
    (r.priority, r.rule_id@)
}

/// The rules with order key `k`.
pub open spec fn key_is(k: (i32, Seq<char>)) -> spec_fn(CompiledRuntimeRenderLayerRule) -> bool {
    |r: CompiledRuntimeRenderLayerRule| rule_key(r) == k
}

proof fn lemma_filter_push<A>(s: Seq<A>, x: A, pred: spec_fn(A) -> bool)
    ensures
        s.push(x).filter(pred) == if pred(x) { s.filter(pred).push(x) } else { s.filter(pred) },
{
    reveal(Seq::filter);
    assert(s.push(x).drop_last() =~= s);
}

proof fn lemma_filter_none<A>(s: Seq<A>, pred: spec_fn(A) -> bool)
    requires
        forall|i: int| 0 <= i < s.len() ==> !pred(#[trigger] s[i]),
    ensures
        s.filter(pred) == Seq::<A>::empty(),
    decreases s.len(),
{
    reveal(Seq::filter);
    if s.len() > 0 {
        lemma_filter_none(s.drop_last(), pred);
        assert(!pred(s[s.len() - 1]));
    }
}

/// Orders the rules by priority, highest first, then by rule id; rules that tie keep their
/// order. The result holds the same rules.
pub fn sort_world_rules(rules: Vec<CompiledRuntimeRenderLayerRule>) -> (r: Vec<CompiledRuntimeRenderLayerRule>)
    ensures
        rules_sorted(r@),
        r@.to_multiset() == rules@.to_multiset(),
        forall|k: (i32, Seq<char>)| #[trigger] r@.filter(key_is(k)) == rules@.filter(key_is(k)),
{
    let ghost orig = rules@;
    let mut rules = rules;
    let n = rules.len();
    assert(orig.len() == n);
    let mut out: Vec<CompiledRuntimeRenderLayerRule> = Vec::new();
    let mut i: usize = 0;
    assert(orig.take(0) =~= Seq::<CompiledRuntimeRenderLayerRule>::empty());
    assert forall|k: (i32, Seq<char>)| #[trigger] out@.filter(key_is(k)) == orig.take(0).filter(key_is(k)) by {
        lemma_filter_none(out@, key_is(k));
        lemma_filter_none(orig.take(0), key_is(k));
    }
    while rules.len() > 0
        invariant
            i <= orig.len(),
            orig.len() == n,
            rules@ == orig.subrange(i as int, orig.len() as int),
            rules_sorted(out@),
            out@.to_multiset() == orig.take(i as int).to_multiset(),
            forall|k: (i32, Seq<char>)| #[trigger] out@.filter(key_is(k)) == orig.take(i as int).filter(key_is(k)),
        decreases rules.len(),
    {
        let x = rules.remove(0);
        assert(x == orig[i as int]);
        let mut p: usize = 0;
        while p < out.len() && !rule_precedes(&x, &out[p])
            invariant
                p <= out@.len(),
                forall|k: int| 0 <= k < p ==> !rule_lt(x, #[trigger] out@[k]),
            decreases out.len() - p,
        {
            p = p + 1;
        }
        let ghost before = out@;
        out.insert(p, x);
        proof {
            let o = out@;
            assert(o =~= before.insert(p as int, x));
            assert forall|a: int, b: int| 0 <= a < b < o.len() implies !rule_lt(#[trigger] o[b], #[trigger] o[a]) by {
                if b < p {
                    assert(o[a] == before[a] && o[b] == before[b]);
                } else if b == p {
                    assert(o[a] == before[a]);
                } else if a < p {
                    assert(o[a] == before[a] && o[b] == before[b - 1]);
                } else if a == p {
                    assert(o[b] == before[b - 1]);
                    assert(p < before.len());
                    assert(rule_lt(x, before[p as int]));
                    if rule_lt(before[b - 1], x) {
                        lemma_rule_lt_strict(before[b - 1], x, before[p as int]);
                        if b - 1 > p {
                            assert(!rule_lt(before[b - 1], before[p as int]));
                        } else {
                            lemma_rule_lt_strict(before[p as int], x, before[p as int]);
                        }
                    }
                } else {
                    assert(o[a] == before[a - 1] && o[b] == before[b - 1]);
                }
            }
            assert(orig.take(i + 1) =~= orig.take(i as int).push(x));
            vstd::seq_lib::to_multiset_insert(before, p as int, x);
            vstd::seq_lib::to_multiset_build(orig.take(i as int), x);
            let head = before.take(p as int);
            let tail = before.skip(p as int);
            assert(o =~= head + seq![x] + tail);
            assert(before =~= head + tail);
            assert forall|q: int| 0 <= q < tail.len() implies rule_key(#[trigger] tail[q]) != rule_key(x) by {
                assert(tail[q] == before[p + q]);
                assert(rule_lt(x, before[p as int]));
                if rule_key(tail[q]) == rule_key(x) {
                    lemma_rule_lt_strict(before[p as int], x, before[p as int]);
                    if q > 0 {
                        assert(!rule_lt(before[p + q], before[p as int]));
                    }
                }
            }
            assert forall|k: (i32, Seq<char>)| #[trigger] o.filter(key_is(k)) == orig.take(i + 1).filter(key_is(k)) by {
                Seq::filter_distributes_over_add(head + seq![x], tail, key_is(k));
                Seq::filter_distributes_over_add(head, seq![x], key_is(k));
                Seq::filter_distributes_over_add(head, tail, key_is(k));
                lemma_filter_push(Seq::<CompiledRuntimeRenderLayerRule>::empty(), x, key_is(k));
                lemma_filter_none(Seq::<CompiledRuntimeRenderLayerRule>::empty(), key_is(k));
                assert(Seq::<CompiledRuntimeRenderLayerRule>::empty().push(x) =~= seq![x]);
                lemma_filter_push(orig.take(i as int), x, key_is(k));
                if rule_key(x) == k {
                    lemma_filter_none(tail, key_is(k));
                    assert(head.filter(key_is(k)) + seq![x] =~= head.filter(key_is(k)).push(x));
                    assert(head.filter(key_is(k)) + Seq::<CompiledRuntimeRenderLayerRule>::empty() =~= head.filter(key_is(k)));
                } else {
                    assert(head.filter(key_is(k)) + Seq::<CompiledRuntimeRenderLayerRule>::empty() =~= head.filter(key_is(k)));
                }
            }
        }
        i = i + 1;
        assert(rules@ =~= orig.subrange(i as int, orig.len() as int));
    }
    assert(orig.take(i as int) =~= orig);
    out
}

/// Some listed value is one of the labels.
pub open spec fn any_in(values: Seq<Seq<char>>, labels: Seq<Seq<char>>) -> bool {
    exists|k: int| 0 <= k < values.len() && labels.contains(#[trigger] values[k])
}

/// Every listed value is one of the labels.
pub open spec fn all_in(values: Seq<Seq<char>>, labels: Seq<Seq<char>>) -> bool {
    forall|k: int| 0 <= k < values.len() ==> labels.contains(#[trigger] values[k])
}

/// Whether a rule matches an entity with these labels and components: each non-empty "any"
/// list has a member present, and every "all" member is present.
pub open spec fn rule_matches(r: CompiledRuntimeRenderLayerRule, labels: Seq<Seq<char>>, components: Seq<u64>) -> bool {
    &&& (r.labels_any@.len() == 0 || any_in(str_views(r.labels_any@), labels))
    &&& (r.labels_all@.len() == 0 || all_in(str_views(r.labels_all@), labels))
    &&& (r.archetypes_any@.len() == 0 || any_in(str_views(r.archetypes_any@), labels))
    &&& (forall|k: int| 0 <= k < r.components_all@.len() ==> components.contains(#[trigger] r.components_all@[k]))
    &&& (r.components_any@.len() == 0 || exists|k: int| 0 <= k < r.components_any@.len() && components.contains(
        #[trigger] r.components_any@[k],
    ))
}

/// Whether some value is one of the labels.
fn any_label(values: &Vec<String>, labels: &Vec<String>) -> (r: bool)
    ensures
        r == any_in(str_views(values@), str_views(labels@)),
{
    let mut i: usize = 0;
    while i < values.len()
        invariant
            i <= values@.len(),
            forall|k: int| 0 <= k < i ==> !str_views(labels@).contains(#[trigger] str_views(values@)[k]),
        decreases values.len() - i,
    {
        if contains_string(labels, &values[i]) {
            assert(str_views(values@)[i as int] == values@[i as int]@);
            return true;
        }
        i = i + 1;
    }
    false
}

/// Whether every value is one of the labels.
fn all_labels(values: &Vec<String>, labels: &Vec<String>) -> (r: bool)
    ensures
        r == all_in(str_views(values@), str_views(labels@)),
{
    let mut i: usize = 0;
    while i < values.len()
        invariant
            i <= values@.len(),
            forall|k: int| 0 <= k < i ==> str_views(labels@).contains(#[trigger] str_views(values@)[k]),
        decreases values.len() - i,
    {
        if !contains_string(labels, &values[i]) {
            assert(str_views(values@)[i as int] == values@[i as int]@);
            return false;
        }
        i = i + 1;
    }
    true
}

/// Whether `v` holds `x`.
fn has_component(v: &Vec<u64>, x: u64) -> (r: bool)
    ensures
        r == v@.contains(x),
{
    let mut i: usize = 0;
    while i < v.len()
        invariant
            i <= v@.len(),
            forall|j: int| 0 <= j < i ==> v@[j] != x,
        decreases v.len() - i,
    {
        if v[i] == x {
            return true;
        }
        i = i + 1;
    }
    false
}

/// Whether a rule matches an entity (see `rule_matches`).
pub fn matches_rule(rule: &CompiledRuntimeRenderLayerRule, labels: &Vec<String>, components: &Vec<u64>) -> (r: bool)
    ensures
        r == rule_matches(*rule, str_views(labels@), components@),
{
    if rule.labels_any.len() > 0 && !any_label(&rule.labels_any, labels) {
        return false;
    }
    if rule.labels_all.len() > 0 && !all_labels(&rule.labels_all, labels) {
        return false;
    }
    if rule.archetypes_any.len() > 0 && !any_label(&rule.archetypes_any, labels) {
        return false;
    }
    let mut i: usize = 0;
    while i < rule.components_all.len()
        invariant
            i <= rule.components_all@.len(),
            forall|k: int| 0 <= k < i ==> components@.contains(#[trigger] rule.components_all@[k]),
        decreases rule.components_all.len() - i,
    {
        if !has_component(components, rule.components_all[i]) {
            return false;
        }
        i = i + 1;
    }
    if rule.components_any.len() > 0 {
        let mut j: usize = 0;
        let mut found = false;
        while j < rule.components_any.len()
            invariant
                j <= rule.components_any@.len(),
                found == exists|k: int| 0 <= k < j && components@.contains(#[trigger] rule.components_any@[k]),
            decreases rule.components_any.len() - j,
        {
            if has_component(components, rule.components_any[j]) {
                found = true;
            }
            j = j + 1;
        }
        if !found {
            return false;
        }
    }
    true
}

/// What layer resolution needs of a layer definition.
#[derive(Debug)]
pub struct RenderLayerInfo {
    pub layer_id: String,
    pub enabled: bool,
    /// The layer is drawn in the world phase.
    pub world_phase: bool,
}

/// The position of the first definition of a layer id.
pub open spec fn layer_pos(defs: Seq<RenderLayerInfo>, id: Seq<char>) -> Option<int>
    decreases defs.len(),
{
    if defs.len() == 0 {
        None
    } else {
        match layer_pos(defs.drop_last(), id) {
            Some(p) => Some(p),
            None => if defs.last().layer_id@ == id { Some(defs.len() - 1) } else { None },
        }
    }
}

/// The position of the first definition of a layer id.
pub fn find_layer(defs: &Vec<RenderLayerInfo>, id: &String) -> (r: Option<usize>)
    ensures
        match r {
            Some(i) => layer_pos(defs@, id@) == Some(i as int),
            None => layer_pos(defs@, id@) is None,
        },
{
    let ghost d = defs@;
    let mut i: usize = 0;
    assert(d.take(0) =~= Seq::<RenderLayerInfo>::empty());
    while i < defs.len()
        invariant
            d == defs@,
            i <= d.len(),
            layer_pos(d.take(i as int), id@) is None,
        decreases defs.len() - i,
    {
        assert(d.take(i + 1).drop_last() =~= d.take(i as int));
        if defs[i].layer_id == *id {
            assert(layer_pos(d.take(i + 1), id@) == Some(i as int));
            proof {
                lemma_layer_pos_prefix(d, id@, i as int + 1);
            }
            return Some(i);
        }
        i = i + 1;
    }
    assert(d.take(i as int) =~= d);
    None
}

/// A definition found in a prefix is the one found in the whole list.
proof fn lemma_layer_pos_prefix(d: Seq<RenderLayerInfo>, id: Seq<char>, n: int)
    requires
        0 <= n <= d.len(),
        layer_pos(d.take(n), id) is Some,
    ensures
        layer_pos(d, id) == layer_pos(d.take(n), id),
    decreases d.len() - n,
{
    if n < d.len() {
        assert(d.take(n + 1).drop_last() =~= d.take(n));
        lemma_layer_pos_prefix(d, id, n + 1);
    } else {
        assert(d.take(n) =~= d);
    }
}

/// The first rule, in order, that matches the entity and whose target layer is defined.
pub open spec fn first_matching_rule(
    rules: Seq<CompiledRuntimeRenderLayerRule>,
    defs: Seq<RenderLayerInfo>,
    labels: Seq<Seq<char>>,
    components: Seq<u64>,
) -> Option<int>
    decreases rules.len(),
{
    if rules.len() == 0 {
        None
    } else if rule_matches(rules[0], labels, components) && layer_pos(defs, rules[0].target_layer_id@) is Some {
        layer_pos(defs, rules[0].target_layer_id@)
    } else {
        first_matching_rule(rules.drop_first(), defs, labels, components)
    }
}

/// The layer an entity is drawn in: its override when that layer is defined, enabled and in
/// the world phase; else the target of the first matching world rule; else (`None`) the
/// default world layer.
pub open spec fn world_layer_spec(
    defs: Seq<RenderLayerInfo>,
    rules: Seq<CompiledRuntimeRenderLayerRule>,
    labels: Seq<Seq<char>>,
    components: Seq<u64>,
    override_layer_id: Option<Seq<char>>,
) -> Option<int> {
    let o = match override_layer_id {
        Some(id) => match layer_pos(defs, id) {
            Some(p) => if defs[p].enabled && defs[p].world_phase { Some(p) } else { None },
            None => None,
        },
        None => None,
    };
    if o is Some { o } else { first_matching_rule(rules, defs, labels, components) }
}

/// The layer an entity is drawn in, as a position among the definitions (see
/// `world_layer_spec`); `None` stands for the default world layer.
pub fn resolve_world_layer_definition(
    defs: &Vec<RenderLayerInfo>,
    rules: &Vec<CompiledRuntimeRenderLayerRule>,
    labels: &Vec<String>,
    components: &Vec<u64>,
    override_layer_id: &Option<String>,
) -> (r: Option<usize>)
    ensures
        world_layer_spec(defs@, rules@, str_views(labels@), components@, crate::control::ov(*override_layer_id))
            == match r {
            Some(i) => Some(i as int),
            None => None,
        },
{
    let ghost ovr = crate::control::ov(*override_layer_id);
    let o: Option<usize> = match override_layer_id {
        Some(id) => match find_layer(defs, id) {
            Some(p) => {
                proof {
                    lemma_layer_pos_bound(defs@, id@);
                }
                assert(ovr == Some(id@));
                assert(layer_pos(defs@, id@) == Some(p as int));
                if defs[p].enabled && defs[p].world_phase {
                    Some(p)
                } else {
                    None
                }
            },
            None => None,
        },
        None => None,
    };
    assert(match ovr {
        Some(id) => match layer_pos(defs@, id) {
            Some(p) => if defs@[p].enabled && defs@[p].world_phase { o matches Some(q) && q == p } else { o is None },
            None => o is None,
        },
        None => o is None,
    });
    if o.is_some() {
        return o;
    }
    let ghost rs = rules@;
    let mut i: usize = 0;
    assert(rs.skip(0) =~= rs);
    assert(world_layer_spec(defs@, rules@, str_views(labels@), components@, ovr) == first_matching_rule(
        rs,
        defs@,
        str_views(labels@),
        components@,
    ));
    while i < rules.len()
        invariant
            rs == rules@,
            ovr == crate::control::ov(*override_layer_id),
            world_layer_spec(defs@, rules@, str_views(labels@), components@, ovr) == first_matching_rule(
                rs,
                defs@,
                str_views(labels@),
                components@,
            ),
            i <= rs.len(),
            first_matching_rule(rs, defs@, str_views(labels@), components@) == first_matching_rule(
                rs.skip(i as int),
                defs@,
                str_views(labels@),
                components@,
            ),
        decreases rules.len() - i,
    {
        let ghost rest = rs.skip(i as int);
        assert(rest[0] == rs[i as int]);
        assert(rest.drop_first() =~= rs.skip(i + 1));
        if matches_rule(&rules[i], labels, components) {
            match find_layer(defs, &rules[i].target_layer_id) {
                Some(p) => {
                    assert(first_matching_rule(rest, defs@, str_views(labels@), components@) == Some(p as int));
                    return Some(p);
                },
                None => {},
            }
        }
        i = i + 1;
    }
    None
}

/// A found definition lies within the list.
pub proof fn lemma_layer_pos_bound(defs: Seq<RenderLayerInfo>, id: Seq<char>)
    ensures
        layer_pos(defs, id) matches Some(p) ==> 0 <= p < defs.len() && defs[p].layer_id@ == id,
    decreases defs.len(),
{
    if defs.len() > 0 {
        lemma_layer_pos_bound(defs.drop_last(), id);
        if let Some(p) = layer_pos(defs.drop_last(), id) {
            assert(defs[p] == defs.drop_last()[p]);
        }
    }
}

} // verus!
