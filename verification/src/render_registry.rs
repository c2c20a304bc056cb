//! Building the runtime render layer registry: the layer definitions that take effect, and
//! the world rules compiled against them. The rules are then ordered by `sort_world_rules`.

use vstd::prelude::*;
use crate::assets::str_views;
use crate::keyed::{Keyed, keys_unique, keyed_map, upsert_keyed, find_key, lemma_key_pos};
use crate::render_layers::{
    CompiledRuntimeRenderLayerRule, RenderLayerInfo, layer_pos, find_layer, rules_sorted, sort_world_rules,
};

verus! {

impl Keyed for RenderLayerInfo {
    open spec fn key_view(&self) -> Seq<char> {
        self.layer_id@
    }

    fn key(&self) -> (r: &String) {
        &self.layer_id
    }
}

/// An authored layer definition, with the outcome of its validation.
#[derive(Debug)]
pub struct RuntimeRenderLayerDefinitionInput {
    pub layer: RenderLayerInfo,
    /// The definition passed the content validator.
    pub valid: bool,
}

/// The definitions after the authored ones, in order: an enabled and valid definition
/// replaces any earlier one of its layer id.
pub open spec fn definitions_after(
    m: Map<Seq<char>, RenderLayerInfo>,
    defs: Seq<RuntimeRenderLayerDefinitionInput>,
) -> Map<Seq<char>, RenderLayerInfo>
    decreases defs.len(),
{
    if defs.len() == 0 {
        m
    } else {
        let before = definitions_after(m, defs.drop_last());
        let d = defs.last();
        if d.layer.enabled && d.valid {
            before.insert(d.layer.layer_id@, d.layer)
        } else {
            before
        }
    }
}

/// The registry's layer definitions: the default world layer, then each enabled and valid
/// authored definition, a later one of an id replacing an earlier one.
pub fn build_render_layer_definitions(
    default_layer: RenderLayerInfo,
    definitions: Vec<RuntimeRenderLayerDefinitionInput>,
) -> (r: Vec<RenderLayerInfo>)
    ensures
        keys_unique(r@),
        keyed_map(r@) == definitions_after(map![default_layer.layer_id@ => default_layer], definitions@),
{
    let ghost d0 = default_layer;
    let ghost defs = definitions@;
    let mut r: Vec<RenderLayerInfo> = Vec::new();
    upsert_keyed(&mut r, default_layer);
    assert(keyed_map(r@) =~= map![d0.layer_id@ => d0]) by {
        assert(keyed_map(Seq::<RenderLayerInfo>::empty()) =~= Map::<Seq<char>, RenderLayerInfo>::empty());
    }
    let mut definitions = definitions;
    let mut i: usize = 0;
    let n = definitions.len();
    assert(defs.take(0) =~= Seq::<RuntimeRenderLayerDefinitionInput>::empty());
    while definitions.len() > 0
        invariant
            n == defs.len(),
            i <= n,
            definitions@ == defs.subrange(i as int, n as int),
            keys_unique(r@),
            keyed_map(r@) == definitions_after(map![d0.layer_id@ => d0], defs.take(i as int)),
        decreases definitions.len(),
    {
        let d = definitions.remove(0);
        assert(d == defs[i as int]);
        assert(defs.take(i + 1).drop_last() =~= defs.take(i as int));
        assert(defs.take(i + 1).last() == defs[i as int]);
        if d.layer.enabled && d.valid {
            upsert_keyed(&mut r, d.layer);
        }
        i = i + 1;
        assert(definitions@ =~= defs.subrange(i as int, n as int));
    }
    assert(defs.take(i as int) =~= defs);
    r
}

/// An authored world rule, with the outcome of its validation against the known layers and
/// component kinds.
#[derive(Debug)]
pub struct RuntimeRenderLayerRuleInput {
    pub rule_id: String,
    pub target_layer_id: String,
    pub priority: i32,
    pub enabled: bool,
    /// The rule passed the content validator.
    pub valid: bool,
    pub labels_any: Vec<String>,
    pub labels_all: Vec<String>,
    pub archetypes_any: Vec<String>,
    /// Component kinds, by name.
    pub components_all: Vec<String>,
    pub components_any: Vec<String>,
}

/// The component id registered for a kind name: the last registration of the name.
pub open spec fn kind_id(kinds: Seq<(String, u64)>, k: Seq<char>) -> Option<u64>
    decreases kinds.len(),
{
    if kinds.len() == 0 {
        None
    } else if kinds.last().0@ == k {
        Some(kinds.last().1)
    } else {
        kind_id(kinds.drop_last(), k)
    }
}

/// The component ids of the kind names that are registered, in order.
pub open spec fn kind_ids(kinds: Seq<(String, u64)>, ks: Seq<Seq<char>>) -> Seq<u64>
    decreases ks.len(),
{
    if ks.len() == 0 {
        Seq::empty()
    } else {
        kind_ids(kinds, ks.drop_last()) + match kind_id(kinds, ks.last()) {
            Some(id) => seq![id],
            None => Seq::empty(),
        }
    }
}

/// A rule takes effect when it is enabled and valid and its target layer is defined and drawn
/// in the world phase.
pub open spec fn rule_applies(r: RuntimeRenderLayerRuleInput, defs: Seq<RenderLayerInfo>) -> bool {
    &&& r.enabled && r.valid
    &&& layer_pos(defs, r.target_layer_id@) matches Some(p) && defs[p].world_phase
}

/// What a compiled rule says.
pub open spec fn compiled_view(
    c: CompiledRuntimeRenderLayerRule,
) -> (Seq<char>, Seq<char>, i32, Seq<Seq<char>>, Seq<Seq<char>>, Seq<Seq<char>>, Seq<u64>, Seq<u64>) {
    (
        c.rule_id@,
        c.target_layer_id@,
        c.priority,
        str_views(c.labels_any@),
        str_views(c.labels_all@),
        str_views(c.archetypes_any@),
        c.components_all@,
        c.components_any@,
    )
}

/// What an authored rule compiles to.
pub open spec fn compiled_from(
    r: RuntimeRenderLayerRuleInput,
    kinds: Seq<(String, u64)>,
) -> (Seq<char>, Seq<char>, i32, Seq<Seq<char>>, Seq<Seq<char>>, Seq<Seq<char>>, Seq<u64>, Seq<u64>) {
    (
        r.rule_id@,
        r.target_layer_id@,
        r.priority,
        str_views(r.labels_any@),
        str_views(r.labels_all@),
        str_views(r.archetypes_any@),
        kind_ids(kinds, str_views(r.components_all@)),
        kind_ids(kinds, str_views(r.components_any@)),
    )
}

/// The rules that take effect, compiled, in their authored order.
pub open spec fn compile_spec(
    rules: Seq<RuntimeRenderLayerRuleInput>,
    defs: Seq<RenderLayerInfo>,
    kinds: Seq<(String, u64)>,
) -> Seq<(Seq<char>, Seq<char>, i32, Seq<Seq<char>>, Seq<Seq<char>>, Seq<Seq<char>>, Seq<u64>, Seq<u64>)>
    decreases rules.len(),
{
    if rules.len() == 0 {
        Seq::empty()
    } else {
        let before = compile_spec(rules.drop_last(), defs, kinds);
        if rule_applies(rules.last(), defs) {
            before.push(compiled_from(rules.last(), kinds))
        } else {
            before
        }
    }
}

/// The component id of a kind name (see `kind_id`).
fn find_kind(kinds: &Vec<(String, u64)>, k: &String) -> (r: Option<u64>)
    ensures
        r == kind_id(kinds@, k@),
{
    let ghost s = kinds@;
    let mut i: usize = kinds.len();
    assert(s.take(s.len() as int) =~= s);
    while i > 0
        invariant
            s == kinds@,
            i <= s.len(),
            kind_id(s, k@) == kind_id(s.take(i as int), k@),
        decreases i,
    {
        let ghost t = s.take(i as int);
        assert(t.drop_last() =~= s.take(i - 1));
        assert(t.last() == s[i - 1]);
        if kinds[i - 1].0 == *k {
            return Some(kinds[i - 1].1);
        }
        i = i - 1;
    }
    None
}

/// The component ids of the registered kind names (see `kind_ids`).
fn resolve_kinds(kinds: &Vec<(String, u64)>, names: &Vec<String>) -> (r: Vec<u64>)
    ensures
        r@ == kind_ids(kinds@, str_views(names@)),
{
    let ghost ns = str_views(names@);
    let mut r: Vec<u64> = Vec::new();
    let mut i: usize = 0;
    assert(ns.take(0) =~= Seq::<Seq<char>>::empty());
    while i < names.len()
        invariant
            ns == str_views(names@),
            i <= names@.len(),
            r@ == kind_ids(kinds@, ns.take(i as int)),
        decreases names.len() - i,
    {
        assert(ns.take(i + 1).drop_last() =~= ns.take(i as int));
        assert(ns.take(i + 1).last() == names@[i as int]@);
        match find_kind(kinds, &names[i]) {
            Some(id) => {
                r.push(id);
            },
            None => {},
        }
        assert(r@ =~= kind_ids(kinds@, ns.take(i + 1)));
        i = i + 1;
    }
    assert(ns.take(i as int) =~= ns);
    r
}

/// Compiles the world rules that take effect (see `rule_applies`), in their authored order:
/// component kinds become the ids registered for them, unregistered ones are dropped.
pub fn compile_world_rules(
    rules: Vec<RuntimeRenderLayerRuleInput>,
    defs: &Vec<RenderLayerInfo>,
    kinds: &Vec<(String, u64)>,
) -> (r: Vec<CompiledRuntimeRenderLayerRule>)
    ensures
        r@.map_values(|c: CompiledRuntimeRenderLayerRule| compiled_view(c)) == compile_spec(rules@, defs@, kinds@),
{
    let ghost rs = rules@;
    let mut rules = rules;
    let n = rules.len();
    let mut out: Vec<CompiledRuntimeRenderLayerRule> = Vec::new();
    let mut i: usize = 0;
    assert(rs.take(0) =~= Seq::<RuntimeRenderLayerRuleInput>::empty());
    while rules.len() > 0
        invariant
            n == rs.len(),
            i <= n,
            rules@ == rs.subrange(i as int, n as int),
            out@.map_values(|c: CompiledRuntimeRenderLayerRule| compiled_view(c)) == compile_spec(rs.take(i as int), defs@, kinds@),
        decreases rules.len(),
    {
        let rule = rules.remove(0);
        assert(rule == rs[i as int]);
        assert(rs.take(i + 1).drop_last() =~= rs.take(i as int));
        assert(rs.take(i + 1).last() == rs[i as int]);
        let applies = rule.enabled && rule.valid && match find_layer(defs, &rule.target_layer_id) {
            Some(p) => {
                proof {
                    crate::render_layers::lemma_layer_pos_bound(defs@, rule.target_layer_id@);
                }
                defs[p].world_phase
            },
            None => false,
        };
        if applies {
            let components_all = resolve_kinds(kinds, &rule.components_all);
            let components_any = resolve_kinds(kinds, &rule.components_any);
            let ghost before = out@;
            let c = CompiledRuntimeRenderLayerRule {
                rule_id: rule.rule_id,
                target_layer_id: rule.target_layer_id,
                priority: rule.priority,
                labels_any: rule.labels_any,
                labels_all: rule.labels_all,
                archetypes_any: rule.archetypes_any,
                components_all,
                components_any,
            };
            assert(compiled_view(c) == compiled_from(rs[i as int], kinds@));
            out.push(c);
            assert(out@.map_values(|c: CompiledRuntimeRenderLayerRule| compiled_view(c)) =~= before.map_values(
                |c: CompiledRuntimeRenderLayerRule| compiled_view(c),
            ).push(compiled_view(c)));
        }
        i = i + 1;
        assert(rules@ =~= rs.subrange(i as int, n as int));
    }
    assert(rs.take(i as int) =~= rs);
    out
}


/// The runtime render layer registry: the layer definitions by id and the world rules in the
/// order they apply.
#[derive(Debug)]
pub struct RuntimeRenderLayerRegistry {
    pub definitions: Vec<RenderLayerInfo>,
    pub world_rules: Vec<CompiledRuntimeRenderLayerRule>,
}

/// A layer definition as plain values.
pub open spec fn info_view(d: RenderLayerInfo) -> (Seq<char>, bool, bool) {
    (d.layer_id@, d.enabled, d.world_phase)
}

/// Two definition lists define the same layers the same way.
pub open spec fn same_defs(a: Seq<RenderLayerInfo>, b: Seq<RenderLayerInfo>) -> bool {
    &&& forall|k: Seq<char>| keyed_map(a).contains_key(k) <==> keyed_map(b).contains_key(k)
    &&& forall|k: Seq<char>| keyed_map(a).contains_key(k) ==> info_view(keyed_map(a)[k]) == info_view(keyed_map(b)[k])
}

/// The id and target layer of each rule, in order.
pub open spec fn rule_keys(rules: Seq<CompiledRuntimeRenderLayerRule>) -> Seq<(Seq<char>, Seq<char>)> {
    rules.map_values(|r: CompiledRuntimeRenderLayerRule| (r.rule_id@, r.target_layer_id@))
}

/// A new registry differs from the one in place: other definitions, or other rule ids or
/// targets in order.
pub open spec fn registry_changed(old: RuntimeRenderLayerRegistry, new: RuntimeRenderLayerRegistry) -> bool {
    !same_defs(old.definitions@, new.definitions@) || rule_keys(old.world_rules@) != rule_keys(new.world_rules@)
}

fn same_definitions(a: &Vec<RenderLayerInfo>, b: &Vec<RenderLayerInfo>) -> (r: bool)
    requires
        keys_unique(a@),
        keys_unique(b@),
    ensures
        r == same_defs(a@, b@),
{
    let mut i: usize = 0;
    while i < a.len()
        invariant
            keys_unique(a@),
            keys_unique(b@),
            i <= a@.len(),
            forall|x: int| 0 <= x < i ==> keyed_map(b@).contains_key(#[trigger] a@[x].layer_id@) && info_view(
                keyed_map(b@)[a@[x].layer_id@],
            ) == info_view(a@[x]),
        decreases a.len() - i,
    {
        proof {
            lemma_key_pos(a@, i as int);
        }
        match find_key(b, &a[i].layer_id) {
            None => {
                return false;
            },
            Some(j) => {
                if !(b[j].layer_id == a[i].layer_id && b[j].enabled == a[i].enabled && b[j].world_phase
                    == a[i].world_phase) {
                    return false;
                }
            },
        }
        i = i + 1;
    }
    let mut j: usize = 0;
    while j < b.len()
        invariant
            keys_unique(a@),
            keys_unique(b@),
            j <= b@.len(),
            forall|x: int| 0 <= x < a@.len() ==> keyed_map(b@).contains_key(#[trigger] a@[x].layer_id@) && info_view(
                keyed_map(b@)[a@[x].layer_id@],
            ) == info_view(a@[x]),
            forall|y: int| 0 <= y < j ==> keyed_map(a@).contains_key(#[trigger] b@[y].layer_id@),
        decreases b.len() - j,
    {
        proof {
            lemma_key_pos(b@, j as int);
        }
        match find_key(a, &b[j].layer_id) {
            None => {
                return false;
            },
            Some(_) => {},
        }
        j = j + 1;
    }
    proof {
        assert forall|k: Seq<char>| keyed_map(a@).contains_key(k) implies keyed_map(b@).contains_key(k) && info_view(
            keyed_map(a@)[k],
        ) == info_view(keyed_map(b@)[k]) by {
            let x = choose|x: int| 0 <= x < a@.len() && #[trigger] a@[x].key_view() == k;
            lemma_key_pos(a@, x);
            assert(a@[x].layer_id@ == k);
        }
        assert forall|k: Seq<char>| keyed_map(b@).contains_key(k) implies keyed_map(a@).contains_key(k) by {
            let y = choose|y: int| 0 <= y < b@.len() && #[trigger] b@[y].key_view() == k;
            assert(b@[y].layer_id@ == k);
        }
    }
    true
}

fn same_rule_keys(a: &Vec<CompiledRuntimeRenderLayerRule>, b: &Vec<CompiledRuntimeRenderLayerRule>) -> (r: bool)
    ensures
        r == (rule_keys(a@) == rule_keys(b@)),
{
    if a.len() != b.len() {
        assert(rule_keys(a@).len() != rule_keys(b@).len());
        return false;
    }
    let mut i: usize = 0;
    while i < a.len()
        invariant
            a@.len() == b@.len(),
            i <= a@.len(),
            forall|x: int| 0 <= x < i ==> rule_keys(a@)[x] == #[trigger] rule_keys(b@)[x],
        decreases a.len() - i,
    {
        if !(a[i].rule_id == b[i].rule_id && a[i].target_layer_id == b[i].target_layer_id) {
            assert(rule_keys(a@)[i as int] != rule_keys(b@)[i as int]);
            return false;
        }
        i = i + 1;
    }
    assert(rule_keys(a@) =~= rule_keys(b@));
    true
}

/// The law of a registry sync, as one statement: the definitions are the default world layer
/// and each enabled, valid definition by id; the world rules are exactly the compiled
/// enabled, valid rules whose target layer is defined and drawn in the world phase (so every
/// world rule targets such a layer), ordered by priority and then rule id; and the registry in
/// place is replaced exactly when there is none or it differs in definitions or in rule ids and
/// targets.
pub open spec fn render_registry_synced(
    existing: Option<RuntimeRenderLayerRegistry>,
    default_layer: RenderLayerInfo,
    definitions: Seq<RuntimeRenderLayerDefinitionInput>,
    rules: Seq<RuntimeRenderLayerRuleInput>,
    kinds: Seq<(String, u64)>,
    reg: RuntimeRenderLayerRegistry,
    replace: bool,
) -> bool {
    let cs = compile_spec(rules, reg.definitions@, kinds);
    &&& keys_unique(reg.definitions@)
    &&& keyed_map(reg.definitions@) == definitions_after(map![default_layer.layer_id@ => default_layer], definitions)
    &&& rules_sorted(reg.world_rules@)
    &&& reg.world_rules@.len() == cs.len()
    &&& forall|j: int| 0 <= j < reg.world_rules@.len() ==> cs.contains(compiled_view(#[trigger] reg.world_rules@[j]))
    &&& forall|i: int| 0 <= i < cs.len() ==> reg.world_rules@.map_values(|c: CompiledRuntimeRenderLayerRule| compiled_view(c)).contains(
        #[trigger] cs[i],
    )
    &&& forall|j: int| 0 <= j < reg.world_rules@.len() ==> (layer_pos(reg.definitions@, (#[trigger] reg.world_rules@[j]).target_layer_id@)
        matches Some(p) && reg.definitions@[p].world_phase)
    &&& replace == match existing {
        Some(e) => registry_changed(e, reg),
        None => true,
    }
}

/// Each compiled rule targets a defined layer drawn in the world phase.
proof fn lemma_compile_spec_world_targets(
    rules: Seq<RuntimeRenderLayerRuleInput>,
    defs: Seq<RenderLayerInfo>,
    kinds: Seq<(String, u64)>,
)
    ensures
        forall|j: int| 0 <= j < compile_spec(rules, defs, kinds).len() ==> (layer_pos(defs, (#[trigger] compile_spec(rules, defs, kinds)[j]).1)
            matches Some(p) && defs[p].world_phase),
    decreases rules.len(),
{
    if rules.len() > 0 {
        let d = rules.drop_last();
        lemma_compile_spec_world_targets(d, defs, kinds);
        let cs = compile_spec(rules, defs, kinds);
        let cd = compile_spec(d, defs, kinds);
        assert forall|j: int| 0 <= j < cs.len() implies (layer_pos(defs, (#[trigger] cs[j]).1) matches Some(p) && defs[p].world_phase) by {
            if j < cd.len() {
                assert(cs[j] == cd[j]);
            }
        }
    }
}

/// Builds the runtime render layer registry: the default world layer and each enabled, valid
/// definition (a later one of an id replacing an earlier one); the enabled, valid rules whose
/// target layer is defined and drawn in the world phase, compiled and ordered by priority
/// (highest first) and then rule id. Returns it with whether it replaces the registry in
/// place: when there is none, or the definitions or the rules' ids and targets differ.
pub fn sync_runtime_render_layer_registry(
    existing: Option<&RuntimeRenderLayerRegistry>,
    default_layer: RenderLayerInfo,
    definitions: Vec<RuntimeRenderLayerDefinitionInput>,
    rules: Vec<RuntimeRenderLayerRuleInput>,
    kinds: &Vec<(String, u64)>,
) -> (r: (RuntimeRenderLayerRegistry, bool))
    requires
        existing matches Some(e) ==> keys_unique(e.definitions@),
    ensures
        render_registry_synced(
            match existing {
                Some(e) => Some(*e),
                None => None,
            },
            default_layer,
            definitions@,
            rules@,
            kinds@,
            r.0,
            r.1,
        ),
{
    broadcast use vstd::seq_lib::group_to_multiset_ensures;
    let defs = build_render_layer_definitions(default_layer, definitions);
    let compiled = compile_world_rules(rules, &defs, kinds);
    let ghost cs = compile_spec(rules@, defs@, kinds@);
    let ghost cv = compiled@;
    let sorted = sort_world_rules(compiled);
    let reg = RuntimeRenderLayerRegistry { definitions: defs, world_rules: sorted };
    assert(cs == compile_spec(rules@, reg.definitions@, kinds@));
    proof {
        assert(cv.map_values(|c: CompiledRuntimeRenderLayerRule| compiled_view(c)) == cs);
        assert(reg.world_rules@.len() == reg.world_rules@.to_multiset().len());
        assert(cv.len() == cv.to_multiset().len());
        assert forall|j: int| 0 <= j < reg.world_rules@.len() implies cs.contains(compiled_view(#[trigger] reg.world_rules@[j])) by {
            assert(reg.world_rules@.to_multiset().count(reg.world_rules@[j]) > 0);
            assert(cv.contains(reg.world_rules@[j]));
            let i = choose|i: int| 0 <= i < cv.len() && cv[i] == reg.world_rules@[j];
            assert(cs[i] == compiled_view(cv[i]));
        }
        let wv = reg.world_rules@.map_values(|c: CompiledRuntimeRenderLayerRule| compiled_view(c));
        assert forall|i: int| 0 <= i < cs.len() implies wv.contains(#[trigger] cs[i]) by {
            assert(cs[i] == compiled_view(cv[i]));
            assert(cv.to_multiset().count(cv[i]) > 0);
            assert(reg.world_rules@.contains(cv[i]));
            let j = choose|j: int| 0 <= j < reg.world_rules@.len() && reg.world_rules@[j] == cv[i];
            assert(wv[j] == cs[i]);
        }
    }
    proof {
        lemma_compile_spec_world_targets(rules@, reg.definitions@, kinds@);
        assert forall|j: int| 0 <= j < reg.world_rules@.len() implies (layer_pos(
            reg.definitions@,
            (#[trigger] reg.world_rules@[j]).target_layer_id@,
        ) matches Some(p) && reg.definitions@[p].world_phase) by {
            assert(cs.contains(compiled_view(reg.world_rules@[j])));
            let q = choose|q: int| 0 <= q < cs.len() && cs[q] == compiled_view(reg.world_rules@[j]);
            assert(cs[q].1 == reg.world_rules@[j].target_layer_id@);
        }
    }
    let replace = match existing {
        Some(e) => !same_definitions(&e.definitions, &reg.definitions) || !same_rule_keys(&e.world_rules, &reg.world_rules),
        None => true,
    };
    (reg, replace)
}

} // verus!
