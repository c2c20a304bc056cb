use sidereal_client::render_layers::{sort_world_rules, RenderLayerInfo};
use sidereal_client::render_registry::{
    build_render_layer_definitions, compile_world_rules, sync_runtime_render_layer_registry, RuntimeRenderLayerDefinitionInput,
    RuntimeRenderLayerRuleInput,
};

fn layer(id: &str, enabled: bool, world_phase: bool) -> RenderLayerInfo {
    RenderLayerInfo { layer_id: id.to_string(), enabled, world_phase }
}

fn def(id: &str, enabled: bool, world_phase: bool, valid: bool) -> RuntimeRenderLayerDefinitionInput {
    RuntimeRenderLayerDefinitionInput { layer: layer(id, enabled, world_phase), valid }
}

fn rule(id: &str, target: &str, priority: i32) -> RuntimeRenderLayerRuleInput {
    RuntimeRenderLayerRuleInput {
        rule_id: id.to_string(),
        target_layer_id: target.to_string(),
        priority,
        enabled: true,
        valid: true,
        labels_any: Vec::new(),
        labels_all: Vec::new(),
        archetypes_any: Vec::new(),
        components_all: Vec::new(),
        components_any: Vec::new(),
    }
}

#[test]
fn definitions_keep_the_default_and_enabled_valid_layers() {
    let defs = build_render_layer_definitions(
        layer("main_world", true, true),
        vec![
            def("fx", true, true, true),
            def("ui", true, false, true),
            def("off", false, true, true),
            def("bad", true, true, false),
            def("fx", true, false, true),
        ],
    );
    let ids: Vec<&str> = defs.iter().map(|d| d.layer_id.as_str()).collect();
    assert_eq!(ids.len(), 3);
    assert!(ids.contains(&"main_world") && ids.contains(&"fx") && ids.contains(&"ui"));
    let fx = defs.iter().find(|d| d.layer_id == "fx").unwrap();
    assert!(!fx.world_phase);
}

#[test]
fn world_rules_compile_against_defined_world_layers() {
    let defs = vec![layer("main_world", true, true), layer("ui", true, false), layer("fx", true, true)];
    let kinds = vec![("Hull".to_string(), 3u64), ("Engine".to_string(), 4), ("Hull".to_string(), 7)];
    let mut r1 = rule("b-rule", "fx", 1);
    r1.components_all = vec!["Hull".to_string(), "Unknown".to_string(), "Engine".to_string()];
    r1.components_any = vec!["Engine".to_string()];
    r1.labels_any = vec!["ship".to_string()];
    let mut disabled = rule("off", "fx", 9);
    disabled.enabled = false;
    let mut invalid = rule("invalid", "fx", 9);
    invalid.valid = false;
    let rules = vec![r1, rule("ui-rule", "ui", 5), rule("lost", "nowhere", 5), disabled, invalid, rule("a-rule", "main_world", 1)];
    let compiled = compile_world_rules(rules, &defs, &kinds);
    let ids: Vec<&str> = compiled.iter().map(|c| c.rule_id.as_str()).collect();
    assert_eq!(ids, vec!["b-rule", "a-rule"]);
    assert_eq!(compiled[0].components_all, vec![7, 4]);
    assert_eq!(compiled[0].components_any, vec![4]);
    assert_eq!(compiled[0].labels_any, vec!["ship".to_string()]);
    let sorted = sort_world_rules(compiled);
    let ids: Vec<&str> = sorted.iter().map(|c| c.rule_id.as_str()).collect();
    assert_eq!(ids, vec!["a-rule", "b-rule"]);
}

fn sync_inputs() -> (Vec<RuntimeRenderLayerDefinitionInput>, Vec<RuntimeRenderLayerRuleInput>) {
    let mut disabled = rule("r4", "main_world", 9);
    disabled.enabled = false;
    (
        vec![def("bg", true, false, true)],
        vec![rule("r1", "main_world", 1), rule("r2", "main_world", 5), rule("r3", "bg", 7), disabled],
    )
}

#[test]
fn registry_sync_builds_sorted_world_rules_and_replaces_only_on_change() {
    let (defs, rules) = sync_inputs();
    let (registry, replace) =
        sync_runtime_render_layer_registry(None, layer("main_world", true, true), defs, rules, &Vec::new());
    assert!(replace);
    assert_eq!(registry.definitions.len(), 2);
    let ids: Vec<&str> = registry.world_rules.iter().map(|r| r.rule_id.as_str()).collect();
    assert_eq!(ids, vec!["r2", "r1"]);

    let (defs, rules) = sync_inputs();
    let (_, again) =
        sync_runtime_render_layer_registry(Some(&registry), layer("main_world", true, true), defs, rules, &Vec::new());
    assert!(!again);

    let (defs, mut rules) = sync_inputs();
    rules[0].target_layer_id = "bg".to_string();
    let (changed, replace_changed) =
        sync_runtime_render_layer_registry(Some(&registry), layer("main_world", true, true), defs, rules, &Vec::new());
    assert_eq!(changed.world_rules.len(), 1);
    assert!(replace_changed);
}
