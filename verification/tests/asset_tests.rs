use sidereal_client::asset_cache::{
    asset_present_in_cache_or_source, next_runtime_asset_fetch_candidate, LocalAssetManager,
};
use sidereal_client::asset_deps::{
    collect_runtime_asset_dependency_candidates, insert_asset_id,
    mark_runtime_asset_dependency_state_dirty, sync_runtime_asset_dependency_state,
    RuntimeAssetDependencyDirtyState, RuntimeAssetDependencyState,
};
use sidereal_client::assets::{
    expand_catalog_dependencies, receive_asset_catalog_version_messages,
    AssetCatalogHotReloadState, RuntimeAssetCatalogRecord,
};

fn catalog_record(asset_id: &str, dependencies: &[&str]) -> RuntimeAssetCatalogRecord {
    RuntimeAssetCatalogRecord {
        asset_id: asset_id.to_string(),
        asset_guid: format!("{asset_id}-guid"),
        shader_family: None,
        dependencies: dependencies.iter().map(|value| (*value).to_string()).collect(),
        url: format!("/assets/{asset_id}"),
        relative_cache_path: format!("cache/{asset_id}"),
        content_type: "text/plain".to_string(),
        byte_len: 1,
        sha256_hex: format!("sha-{asset_id}"),
    }
}

fn test_asset_manager(entries: &[(&str, &[&str])]) -> LocalAssetManager {
    let mut manager = LocalAssetManager::new();
    for (asset_id, dependencies) in entries {
        manager.catalog_by_asset_id.push(catalog_record(asset_id, dependencies));
    }
    manager.reload_generation = 1;
    manager
}

fn contains(ids: &[String], id: &str) -> bool {
    ids.iter().any(|value| value == id)
}

#[test]
fn dependency_state_tracks_new_and_removed_asset_references() {
    let manager = test_asset_manager(&[("planet_shader", &[])]);
    let hot_reload = AssetCatalogHotReloadState::new();
    let mut dependency_state = RuntimeAssetDependencyState::new();
    let mut dirty_state = RuntimeAssetDependencyDirtyState::new();

    mark_runtime_asset_dependency_state_dirty(&mut dirty_state, true);
    let referenced = vec![Some("planet_shader".to_string())];
    sync_runtime_asset_dependency_state(&mut dependency_state, &mut dirty_state, &manager, &hot_reload, 0, &referenced);
    assert!(contains(&dependency_state.candidate_asset_ids, "planet_shader"));

    mark_runtime_asset_dependency_state_dirty(&mut dirty_state, true);
    sync_runtime_asset_dependency_state(&mut dependency_state, &mut dirty_state, &manager, &hot_reload, 0, &Vec::new());
    assert!(!contains(&dependency_state.candidate_asset_ids, "planet_shader"));
}

#[test]
fn dependency_state_expands_catalog_closure() {
    let manager = test_asset_manager(&[("visual_root", &["visual_dep"]), ("visual_dep", &[])]);
    let hot_reload = AssetCatalogHotReloadState::new();
    let mut dependency_state = RuntimeAssetDependencyState::new();
    let mut dirty_state = RuntimeAssetDependencyDirtyState::new();

    let referenced = vec![Some("visual_root".to_string())];
    sync_runtime_asset_dependency_state(&mut dependency_state, &mut dirty_state, &manager, &hot_reload, 0, &referenced);

    assert!(contains(&dependency_state.candidate_asset_ids, "visual_root"));
    assert!(contains(&dependency_state.candidate_asset_ids, "visual_dep"));
}

#[test]
fn fetch_candidate_prefers_unresolved_dependency_before_parent() {
    let manager = test_asset_manager(&[("root", &["dep"]), ("dep", &[])]);
    let candidate_asset_ids = vec!["root".to_string(), "dep".to_string()];
    let selected = next_runtime_asset_fetch_candidate(&candidate_asset_ids, &manager, &Vec::new(), &Vec::new());
    assert_eq!(selected.as_deref(), Some("dep"));
}

#[test]
fn dependency_scan_skips_when_nothing_changed() {
    let manager = test_asset_manager(&[("a", &[])]);
    let hot_reload = AssetCatalogHotReloadState::new();
    let mut dependency_state = RuntimeAssetDependencyState::new();
    let mut dirty_state = RuntimeAssetDependencyDirtyState::new();
    let referenced = vec![Some("a".to_string())];
    assert!(sync_runtime_asset_dependency_state(&mut dependency_state, &mut dirty_state, &manager, &hot_reload, 7, &referenced));
    assert_eq!(dependency_state.dependency_graph_rebuilds, 1);
    assert!(!sync_runtime_asset_dependency_state(&mut dependency_state, &mut dirty_state, &manager, &hot_reload, 7, &Vec::new()));
    assert_eq!(dependency_state.dependency_scan_runs, 2);
    assert!(contains(&dependency_state.candidate_asset_ids, "a"));
    assert!(sync_runtime_asset_dependency_state(&mut dependency_state, &mut dirty_state, &manager, &hot_reload, 8, &Vec::new()));
    assert!(dependency_state.candidate_asset_ids.is_empty());
}

#[test]
fn candidates_keep_forced_ids_only_when_cataloged_and_skip_blank_references() {
    let manager = test_asset_manager(&[("known", &["shared"]), ("shared", &[])]);
    let forced = vec!["known".to_string(), "unknown".to_string()];
    let referenced = vec![None, Some("   ".to_string()), Some("extra".to_string()), Some("extra".to_string())];
    let candidates = collect_runtime_asset_dependency_candidates(&manager, &forced, &referenced);
    assert!(contains(&candidates, "known"));
    assert!(contains(&candidates, "shared"));
    assert!(contains(&candidates, "extra"));
    assert!(!contains(&candidates, "unknown"));
    assert_eq!(candidates.len(), 3);
}

#[test]
fn expansion_follows_cycles_once() {
    let manager = test_asset_manager(&[("a", &["b"]), ("b", &["a", "c"]), ("c", &[])]);
    let expanded = expand_catalog_dependencies(vec!["a".to_string(), "a".to_string()], &manager.catalog_by_asset_id);
    assert_eq!(expanded.len(), 3);
    assert!(contains(&expanded, "c"));
}

#[test]
fn insert_asset_id_ignores_blank_and_duplicates() {
    let mut ids = Vec::new();
    insert_asset_id(&mut ids, None);
    insert_asset_id(&mut ids, Some(&" \t".to_string()));
    insert_asset_id(&mut ids, Some(&"x".to_string()));
    insert_asset_id(&mut ids, Some(&"x".to_string()));
    assert_eq!(ids, vec!["x".to_string()]);
}

#[test]
fn presence_uses_ready_records_or_valid_cached_copies() {
    let mut manager = test_asset_manager(&[("a", &[]), ("b", &[])]);
    assert!(!asset_present_in_cache_or_source(&"a".to_string(), &manager, &Vec::new()));
    assert!(asset_present_in_cache_or_source(&"a".to_string(), &manager, &vec!["a".to_string()]));
    assert!(!asset_present_in_cache_or_source(&"zzz".to_string(), &manager, &vec!["zzz".to_string()]));
    manager.records_by_asset_id.push(sidereal_client::asset_cache::LocalAssetRecord {
        asset_id: "b".to_string(),
        relative_cache_path: "cache/b".to_string(),
        content_type: "text/plain".to_string(),
        byte_len: 1,
        chunk_count: 1,
        asset_version: 1,
        sha256_hex: "sha-b".to_string(),
        ready: true,
    });
    assert!(asset_present_in_cache_or_source(&"b".to_string(), &manager, &Vec::new()));
    assert_eq!(manager.cached_relative_path(&"b".to_string()).map(|s| s.as_str()), Some("cache/b"));
    assert!(manager.cached_relative_path(&"a".to_string()).is_none());
    let lookup = manager.cache_lookup(&"b".to_string()).unwrap();
    assert_eq!(lookup.relative_cache_path, "cache/b");
    assert_eq!(lookup.sha256_hex, "sha-b");
}

#[test]
fn catalog_version_announcements_keep_the_last_new_one() {
    let mut hot_reload = AssetCatalogHotReloadState::new();
    let current = Some("v1".to_string());
    receive_asset_catalog_version_messages(&current, &mut hot_reload, vec!["v2".to_string(), "v1".to_string()]);
    assert_eq!(hot_reload.pending_catalog_version.as_deref(), Some("v2"));
    receive_asset_catalog_version_messages(&current, &mut hot_reload, vec!["v3".to_string()]);
    assert_eq!(hot_reload.pending_catalog_version.as_deref(), Some("v3"));
}
