use sidereal_client::camera_anchor::{find_best_runtime_by_guid, find_registered, resolve_camera_anchor_entity, AnchorCandidate};
use sidereal_client::render_layers::{
    find_layer, matches_rule, resolve_world_layer_definition, rule_precedes, sort_world_rules, str_lex_lt,
    CompiledRuntimeRenderLayerRule, RenderLayerInfo,
};
use sidereal_client::replicon_sample::{select_role, shard_client_id, shard_id_from_args, SampleRole};

fn rule(id: &str, target: &str, priority: i32) -> CompiledRuntimeRenderLayerRule {
    CompiledRuntimeRenderLayerRule {
        rule_id: id.to_string(),
        target_layer_id: target.to_string(),
        priority,
        labels_any: Vec::new(),
        labels_all: Vec::new(),
        archetypes_any: Vec::new(),
        components_all: Vec::new(),
        components_any: Vec::new(),
    }
}

fn layer(id: &str, enabled: bool, world_phase: bool) -> RenderLayerInfo {
    RenderLayerInfo { layer_id: id.to_string(), enabled, world_phase }
}

fn strings(v: &[&str]) -> Vec<String> {
    v.iter().map(|s| s.to_string()).collect()
}

#[test]
fn rules_sort_by_priority_then_id() {
    let sorted = sort_world_rules(vec![rule("b", "x", 1), rule("z", "x", 5), rule("a", "x", 1), rule("m", "x", 5)]);
    let ids: Vec<&str> = sorted.iter().map(|r| r.rule_id.as_str()).collect();
    assert_eq!(ids, vec!["m", "z", "a", "b"]);
    assert!(rule_precedes(&rule("a", "x", 2), &rule("b", "x", 1)));
    assert!(!rule_precedes(&rule("a", "x", 1), &rule("a", "x", 1)));
    assert!(str_lex_lt(&"ab".to_string(), &"b".to_string()));
    assert!(str_lex_lt(&"a".to_string(), &"ab".to_string()));
    assert!(!str_lex_lt(&"b".to_string(), &"ab".to_string()));
}

#[test]
fn rules_match_on_labels_and_components() {
    let mut r = rule("r", "x", 0);
    r.labels_any = strings(&["ship", "station"]);
    r.labels_all = strings(&["visible"]);
    r.components_all = vec![1, 2];
    r.components_any = vec![7, 8];
    assert!(matches_rule(&r, &strings(&["ship", "visible"]), &vec![1, 2, 8]));
    assert!(!matches_rule(&r, &strings(&["ship"]), &vec![1, 2, 8]));
    assert!(!matches_rule(&r, &strings(&["ship", "visible"]), &vec![1, 8]));
    assert!(!matches_rule(&r, &strings(&["ship", "visible"]), &vec![1, 2]));
    assert!(matches_rule(&rule("any", "x", 0), &Vec::new(), &Vec::new()));
}

#[test]
fn world_layer_resolution_prefers_a_valid_override() {
    let defs = vec![layer("main", true, true), layer("ui", true, false), layer("fx", true, true), layer("fx", false, true)];
    assert_eq!(find_layer(&defs, &"fx".to_string()), Some(2));
    assert_eq!(find_layer(&defs, &"none".to_string()), None);
    let mut fx_rule = rule("fx-rule", "fx", 0);
    fx_rule.labels_any = strings(&["engine"]);
    let rules = vec![rule("missing", "nowhere", 9), fx_rule];
    let labels = strings(&["engine"]);
    assert_eq!(resolve_world_layer_definition(&defs, &rules, &labels, &Vec::new(), &Some("main".to_string())), Some(0));
    assert_eq!(resolve_world_layer_definition(&defs, &rules, &labels, &Vec::new(), &Some("ui".to_string())), Some(2));
    assert_eq!(resolve_world_layer_definition(&defs, &rules, &labels, &Vec::new(), &None), Some(2));
    assert_eq!(resolve_world_layer_definition(&defs, &rules, &Vec::new(), &Vec::new(), &None), None);
}

fn anchor(bits: u64, guid: Option<u128>, predicted: bool, interpolated: bool) -> AnchorCandidate {
    AnchorCandidate { entity_bits: bits, guid, is_predicted: predicted, is_interpolated: interpolated }
}

#[test]
fn camera_follows_the_best_copy() {
    let c = vec![anchor(1, Some(5), false, false), anchor(2, Some(5), false, true), anchor(3, Some(5), false, true), anchor(4, Some(6), true, false)];
    assert_eq!(find_best_runtime_by_guid(&c, 5), Some(2));
    assert_eq!(find_best_runtime_by_guid(&c, 6), Some(4));
    assert_eq!(find_best_runtime_by_guid(&c, 7), None);
    let reg = vec![("player".to_string(), 40), ("player".to_string(), 41)];
    assert_eq!(find_registered(&reg, &"player".to_string()), Some(40));
    assert_eq!(find_registered(&reg, &"other".to_string()), None);
}

#[test]
fn camera_anchor_prefers_the_controlled_entity() {
    let c = vec![anchor(1, Some(5), true, false), anchor(2, Some(6), true, false)];
    let reg = vec![("player".to_string(), 40)];
    let p = Some("player".to_string());
    let ship = Some("ship".to_string());
    assert_eq!(resolve_camera_anchor_entity(&p, Some(5), &ship, Some(6), &c, &reg), Some(2));
    assert_eq!(resolve_camera_anchor_entity(&p, Some(5), &ship, Some(5), &c, &reg), Some(1));
    assert_eq!(resolve_camera_anchor_entity(&p, Some(9), &None, None, &c, &reg), Some(40));
    assert_eq!(resolve_camera_anchor_entity(&None, Some(5), &ship, Some(6), &c, &reg), None);
    let bare = Some("00000000-0000-0000-0000-000000000006".to_string());
    assert_eq!(resolve_camera_anchor_entity(&p, Some(5), &bare, None, &c, &reg), Some(2));
}

#[test]
fn sample_roles_come_from_arguments() {
    assert!(matches!(select_role(&strings(&["bin", "backend", "shard"])), SampleRole::Backend));
    match select_role(&strings(&["bin", "shard", "shard-id=east"])) {
        SampleRole::Shard { shard_id } => assert_eq!(shard_id, "east"),
        other => panic!("unexpected role {:?}", other),
    }
    assert!(matches!(select_role(&strings(&["bin"])), SampleRole::Client));
    assert_eq!(shard_id_from_args(&strings(&["shard"])), "shard-1");
    assert_eq!(shard_id_from_args(&strings(&["shard-id=a", "shard-id=b"])), "a");
    assert_eq!(shard_client_id("ab"), 97 + 98);
    assert_eq!(shard_client_id(""), 0);
}

use sidereal_client::replicon_sample::distribute_entity_updates;

#[test]
fn entity_updates_go_to_every_other_shard() {
    assert_eq!(distribute_entity_updates(&vec![1, 2, 3, 2], 2), vec![1, 3]);
    assert_eq!(distribute_entity_updates(&vec![5], 5), Vec::<u64>::new());
    assert_eq!(distribute_entity_updates(&Vec::new(), 5), Vec::<u64>::new());
}

use sidereal_client::camera_anchor::prune_runtime_entity_registry_system;

#[test]
fn registry_keeps_only_live_entities() {
    let mut reg = vec![("a".to_string(), 1u64), ("b".to_string(), 2), ("c".to_string(), 3)];
    prune_runtime_entity_registry_system(&mut reg, &vec![3, 1, 9]);
    assert_eq!(reg, vec![("a".to_string(), 1u64), ("c".to_string(), 3)]);
    prune_runtime_entity_registry_system(&mut reg, &Vec::new());
    assert!(reg.is_empty());
}

#[test]
fn world_rules_that_tie_keep_their_order() {
    let sorted = sort_world_rules(vec![
        rule("same", "a", 3),
        rule("other", "x", 9),
        rule("same", "b", 3),
        rule("same", "c", 3),
    ]);
    let order: Vec<(&str, &str)> = sorted.iter().map(|r| (r.rule_id.as_str(), r.target_layer_id.as_str())).collect();
    assert_eq!(order, vec![("other", "x"), ("same", "a"), ("same", "b"), ("same", "c")]);
}
