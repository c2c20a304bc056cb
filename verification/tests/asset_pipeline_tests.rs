use sidereal_client::asset_bootstrap::{
    apply_asset_bootstrap_result, bootstrap_required_bytes, AssetBootstrapManifest, AssetBootstrapRecord,
    AssetBootstrapRequiredAsset, AssetBootstrapResult,
};
use sidereal_client::asset_cache::{AssetCacheIndexRecord, LocalAssetManager};
use sidereal_client::asset_fetch::{
    complete_runtime_asset_fetch, complete_runtime_asset_persist, complete_runtime_asset_save_index,
    queue_missing_catalog_assets, resolve_asset_download_url, start_runtime_asset_save_index,
    RuntimeAssetFetchCompletion, RuntimeAssetFetchResult, RuntimeAssetHttpFetchState, RuntimeAssetPersistResult,
};
use sidereal_client::asset_stream::{
    finish_streamed_asset, is_cache_fresh, receive_asset_stream_chunk, receive_asset_stream_manifest_entry,
    update_stream_bootstrap_phase, AssetChunkOutcome, AssetStreamManifestEntry, AssetStreamState, StreamedAssetFinish,
};
use sidereal_client::assets::{AssetCatalogHotReloadState, RuntimeAssetCatalogRecord};
use sidereal_client::session::AssetBootstrapRequestState;

fn catalog_record(asset_id: &str, dependencies: &[&str]) -> RuntimeAssetCatalogRecord {
    RuntimeAssetCatalogRecord {
        asset_id: asset_id.to_string(),
        asset_guid: format!("{asset_id}-guid"),
        shader_family: None,
        dependencies: dependencies.iter().map(|value| (*value).to_string()).collect(),
        url: format!("/assets/{asset_id}"),
        relative_cache_path: format!("cache/{asset_id}"),
        content_type: "text/plain".to_string(),
        byte_len: 1,
        sha256_hex: format!("sha-{asset_id}"),
    }
}

fn manifest_entry(asset_id: &str, chunk_count: u32, byte_len: u64) -> AssetStreamManifestEntry {
    AssetStreamManifestEntry {
        asset_id: asset_id.to_string(),
        relative_cache_path: format!("models/{asset_id}.glb"),
        content_type: "model/gltf-binary".to_string(),
        byte_len,
        chunk_count,
        asset_version: 3,
        sha256_hex: "abc".to_string(),
    }
}

#[test]
fn streamed_asset_is_joined_in_chunk_order_and_acked() {
    let mut m = LocalAssetManager::new();
    m.bootstrap_manifest_seen = true;
    let mut stream = AssetStreamState::new();
    let req = receive_asset_stream_manifest_entry(&mut m, &mut stream, manifest_entry("hull", 2, 4), false, true).unwrap();
    assert_eq!(req.asset_id, "hull");
    assert_eq!(m.bootstrap_total_bytes, 4);
    assert_eq!(stream.pending_count(), 1);
    assert!(receive_asset_stream_manifest_entry(&mut m, &mut stream, manifest_entry("hull", 2, 4), false, true).is_none());
    assert_eq!(m.bootstrap_total_bytes, 8);
    assert_eq!(stream.requested_asset_ids, vec!["hull".to_string()]);
    assert!(matches!(receive_asset_stream_chunk(&mut stream, &"hull".to_string(), 5, 2, vec![9]), AssetChunkOutcome::Ignored));
    assert!(matches!(receive_asset_stream_chunk(&mut stream, &"hull".to_string(), 0, 3, vec![9]), AssetChunkOutcome::Ignored));
    assert!(matches!(receive_asset_stream_chunk(&mut stream, &"hull".to_string(), 1, 2, vec![3, 4]), AssetChunkOutcome::Stored));
    match receive_asset_stream_chunk(&mut stream, &"hull".to_string(), 0, 2, vec![1, 2]) {
        AssetChunkOutcome::Completed { relative_cache_path, payload } => {
            assert_eq!(relative_cache_path, "models/hull.glb");
            assert_eq!(payload, vec![1, 2, 3, 4]);
        }
        other => panic!("unexpected outcome {:?}", other),
    }
    assert!(!update_stream_bootstrap_phase(&mut m, &stream));
    assert!(matches!(finish_streamed_asset(&mut m, &mut stream, &"hull".to_string(), &"bad".to_string()), StreamedAssetFinish::ChecksumMismatch));
    assert_eq!(stream.pending_count(), 1);
    match finish_streamed_asset(&mut m, &mut stream, &"hull".to_string(), &"abc".to_string()) {
        StreamedAssetFinish::Acked(ack) => {
            assert_eq!(ack.asset_id, "hull");
            assert_eq!(ack.asset_version, 3);
        }
        other => panic!("unexpected finish {:?}", other),
    }
    assert_eq!(stream.pending_count(), 0);
    assert!(stream.requested_asset_ids.is_empty());
    assert_eq!(m.bootstrap_ready_bytes, 4);
    assert!(is_cache_fresh(&m, &"hull".to_string(), 3, &"abc".to_string()));
    assert!(!is_cache_fresh(&m, &"hull".to_string(), 4, &"abc".to_string()));
    assert!(update_stream_bootstrap_phase(&mut m, &stream));
    assert!(m.bootstrap_complete());
}

#[test]
fn fresh_cached_copy_is_not_requested() {
    let mut m = LocalAssetManager::new();
    m.cache_index.push(AssetCacheIndexRecord { asset_id: "hull".to_string(), asset_version: 3, sha256_hex: "abc".to_string() });
    let mut stream = AssetStreamState::new();
    assert!(receive_asset_stream_manifest_entry(&mut m, &mut stream, manifest_entry("hull", 1, 7), true, true).is_none());
    assert_eq!(stream.pending_count(), 0);
    assert_eq!(m.bootstrap_ready_bytes, 7);
    assert_eq!(m.cached_relative_path(&"hull".to_string()).map(|s| s.as_str()), Some("models/hull.glb"));
}

#[test]
fn download_urls_are_resolved_against_the_gateway() {
    let gw = "http://gw:8080".to_string();
    assert_eq!(resolve_asset_download_url(&"/assets/a".to_string(), &gw), "http://gw:8080/assets/a");
    assert_eq!(resolve_asset_download_url(&"https://cdn/a".to_string(), &gw), "https://cdn/a");
}

#[test]
fn missing_assets_are_queued_dependency_first_up_to_the_limit() {
    let mut m = LocalAssetManager::new();
    m.catalog_by_asset_id.push(catalog_record("root", &["dep"]));
    m.catalog_by_asset_id.push(catalog_record("dep", &[]));
    let mut fs = RuntimeAssetHttpFetchState::new();
    let cands = vec!["root".to_string()];
    let gw = "http://gw".to_string();
    assert!(queue_missing_catalog_assets(&mut fs, &m, &cands, &Vec::new(), false, &gw).is_empty());
    let reqs = queue_missing_catalog_assets(&mut fs, &m, &cands, &Vec::new(), true, &gw);
    let ids: Vec<&str> = reqs.iter().map(|r| r.asset_id.as_str()).collect();
    assert_eq!(ids, vec!["dep", "root"]);
    assert_eq!(reqs[0].url, "http://gw/assets/dep");
    assert_eq!(reqs[0].sha256_hex, "sha-dep");
    assert!(fs.has_in_flight_fetch());
    assert_eq!(fs.in_flight_asset_ids_len(), 2);
    assert!(queue_missing_catalog_assets(&mut fs, &m, &cands, &Vec::new(), true, &gw).is_empty());
    let mut full = RuntimeAssetHttpFetchState::new();
    full.pending_fetches = vec!["a".to_string(), "b".to_string(), "c".to_string(), "d".to_string()];
    assert!(queue_missing_catalog_assets(&mut full, &m, &cands, &Vec::new(), true, &gw).is_empty());
}

fn fetched(asset_id: &str, sha: &str) -> RuntimeAssetFetchResult {
    RuntimeAssetFetchResult {
        asset_id: asset_id.to_string(),
        relative_cache_path: format!("shaders/{asset_id}.wgsl"),
        content_type: "text/wgsl".to_string(),
        byte_len: 3,
        asset_version: 2,
        sha256_hex: sha.to_string(),
        payload: vec![1, 2, 3],
    }
}

#[test]
fn finished_downloads_are_checked_then_persisted() {
    let mut fs = RuntimeAssetHttpFetchState::new();
    fs.pending_fetches = vec!["s".to_string()];
    fs.in_flight_asset_ids = vec!["s".to_string()];
    match complete_runtime_asset_fetch(&mut fs, &"s".to_string(), Ok(fetched("s", "good")), &"evil".to_string()) {
        RuntimeAssetFetchCompletion::Failed { status } => assert_eq!(
            status,
            "Asset download failed: runtime asset checksum mismatch asset_id=s expected=good got=evil"
        ),
        other => panic!("unexpected completion {:?}", other),
    }
    assert!(fs.pending_fetches.is_empty());
    assert!(fs.has_in_flight_fetch());
    fs.pending_fetches = vec!["s".to_string()];
    match complete_runtime_asset_fetch(&mut fs, &"s".to_string(), Ok(fetched("s", "good")), &"good".to_string()) {
        RuntimeAssetFetchCompletion::Persist(res) => assert_eq!(res.asset_id, "s"),
        other => panic!("unexpected completion {:?}", other),
    }
    fs.pending_persists = vec!["s".to_string()];
    let mut m = LocalAssetManager::new();
    let mut hot = AssetCatalogHotReloadState::new();
    hot.forced_asset_ids = vec!["s".to_string(), "t".to_string()];
    let done = complete_runtime_asset_persist(
        &mut m,
        &mut fs,
        &mut hot,
        &"s".to_string(),
        Ok(RuntimeAssetPersistResult {
            asset_id: "s".to_string(),
            relative_cache_path: "shaders/s.wgsl".to_string(),
            content_type: "text/wgsl".to_string(),
            byte_len: 3,
            asset_version: 2,
            sha256_hex: "good".to_string(),
        }),
    );
    assert_eq!(done.status, "Asset downloaded: s");
    assert!(done.wrote_shader_source);
    assert!(fs.pending_persists.is_empty());
    assert!(!fs.has_in_flight_fetch());
    assert_eq!(hot.forced_asset_ids, vec!["t".to_string()]);
    assert_eq!(m.cached_relative_path(&"s".to_string()).map(|s| s.as_str()), Some("shaders/s.wgsl"));
    assert!(start_runtime_asset_save_index(&mut fs));
    assert!(!start_runtime_asset_save_index(&mut fs));
    assert_eq!(
        complete_runtime_asset_save_index(&mut fs, Err("disk full".to_string())),
        Some("Asset download failed: disk full".to_string())
    );
    assert!(fs.cache_index_dirty && !fs.save_index_in_progress);
}

#[test]
fn failed_download_leaves_the_flight() {
    let mut fs = RuntimeAssetHttpFetchState::new();
    fs.pending_fetches = vec!["x".to_string()];
    fs.in_flight_asset_ids = vec!["x".to_string()];
    match complete_runtime_asset_fetch(&mut fs, &"x".to_string(), Err("timeout".to_string()), &String::new()) {
        RuntimeAssetFetchCompletion::Failed { status } => assert_eq!(status, "Asset download failed: timeout"),
        other => panic!("unexpected completion {:?}", other),
    }
    assert!(!fs.has_in_flight_fetch());
}

fn required(asset_id: &str, byte_len: u64) -> AssetBootstrapRequiredAsset {
    AssetBootstrapRequiredAsset {
        asset_id: asset_id.to_string(),
        url: format!("/assets/{asset_id}"),
        relative_cache_path: format!("cache/{asset_id}"),
        byte_len,
        sha256_hex: "h".to_string(),
    }
}

#[test]
fn bootstrap_result_is_taken_into_the_manager() {
    assert_eq!(bootstrap_required_bytes(&vec![required("a", 3), required("b", 4)]), 7);
    assert_eq!(bootstrap_required_bytes(&vec![required("a", u64::MAX), required("b", 4)]), u64::MAX);
    let mut st = AssetBootstrapRequestState { pending: true, submitted: true, completed: false, failed: false };
    let mut m = LocalAssetManager::new();
    let result = AssetBootstrapResult {
        manifest: AssetBootstrapManifest {
            catalog: vec![catalog_record("a", &[]), catalog_record("b", &[])],
            required_assets: vec![required("a", 3), required("b", 4)],
        },
        records: vec![AssetBootstrapRecord {
            asset_id: "a".to_string(),
            relative_cache_path: "cache/a".to_string(),
            content_type: "text/plain".to_string(),
            byte_len: 3,
            asset_version: 1,
            sha256_hex: "h".to_string(),
            ready: true,
        }],
        cache_index: vec![AssetCacheIndexRecord { asset_id: "a".to_string(), asset_version: 1, sha256_hex: "h".to_string() }],
        bootstrap_total_bytes: 7,
        bootstrap_ready_bytes: 7,
    };
    let applied = apply_asset_bootstrap_result(&mut st, &mut m, Ok(result));
    assert_eq!(applied.status, "Asset bootstrap complete (2 required assets).");
    assert!(applied.error_dialog.is_none());
    assert!(st.completed && !st.failed && !st.pending);
    assert!(m.bootstrap_complete());
    assert_eq!(m.bootstrap_total_bytes, 7);
    assert_eq!(m.catalog_by_asset_id.len(), 2);
    assert_eq!(m.cached_relative_path(&"a".to_string()).map(|s| s.as_str()), Some("cache/a"));

    let mut st = AssetBootstrapRequestState { pending: true, submitted: true, completed: false, failed: false };
    let mut m = LocalAssetManager::new();
    let applied = apply_asset_bootstrap_result(&mut st, &mut m, Err("503".to_string()));
    assert_eq!(applied.status, "Asset bootstrap failed: 503");
    assert_eq!(applied.error_dialog, Some(("Asset Bootstrap Failed".to_string(), "503".to_string())));
    assert!(st.failed && !st.completed);
    assert!(!m.bootstrap_complete());
}

use sidereal_client::asset_cache::{streamed_model_scene_path, streamed_shader_path_for_asset_id, LocalAssetRecord};
use sidereal_client::asset_stream::should_show_runtime_stream_indicator;

fn ready_record(asset_id: &str, path: &str) -> LocalAssetRecord {
    LocalAssetRecord {
        asset_id: asset_id.to_string(),
        relative_cache_path: path.to_string(),
        content_type: "x".to_string(),
        byte_len: 1,
        chunk_count: 1,
        asset_version: 1,
        sha256_hex: "h".to_string(),
        ready: true,
    }
}

#[test]
fn streamed_paths_for_shaders_and_models() {
    assert_eq!(streamed_shader_path_for_asset_id("starfield_wgsl"), Some("data/cache_stream/shaders/starfield.wgsl"));
    assert_eq!(
        streamed_shader_path_for_asset_id("space_background_wgsl"),
        Some("data/cache_stream/shaders/simple_space_background.wgsl")
    );
    assert_eq!(streamed_shader_path_for_asset_id("other"), None);
    let mut m = LocalAssetManager::new();
    m.records_by_asset_id.push(ready_record("hull", "models/hull.glb"));
    m.records_by_asset_id.push(ready_record("tex", "textures/hull.png"));
    let mut pending = ready_record("wing", "models/wing.gltf");
    pending.ready = false;
    m.records_by_asset_id.push(pending);
    assert_eq!(streamed_model_scene_path(&"hull".to_string(), &m).as_deref(), Some("data/cache_stream/models/hull.glb"));
    assert_eq!(streamed_model_scene_path(&"tex".to_string(), &m), None);
    assert_eq!(streamed_model_scene_path(&"wing".to_string(), &m), None);
    assert_eq!(streamed_model_scene_path(&"nope".to_string(), &m), None);
}

#[test]
fn stream_indicator_shows_after_bootstrap_while_streaming() {
    let mut m = LocalAssetManager::new();
    let mut stream = AssetStreamState::new();
    receive_asset_stream_manifest_entry(&mut m, &mut stream, manifest_entry("late", 1, 1), false, false);
    assert!(!should_show_runtime_stream_indicator(&m, &stream));
    m.bootstrap_phase_complete = true;
    assert!(should_show_runtime_stream_indicator(&m, &stream));
    assert!(!should_show_runtime_stream_indicator(&m, &AssetStreamState::new()));
}

use sidereal_client::asset_stream::{critical_asset_cache_path, ensure_critical_assets_available_system};

#[test]
fn missing_critical_assets_are_requested_every_two_seconds() {
    let mut m = LocalAssetManager::new();
    m.cache_index.push(AssetCacheIndexRecord { asset_id: "stars".to_string(), asset_version: 5, sha256_hex: "s5".to_string() });
    let ids = vec!["corvette".to_string(), "stars".to_string(), "bg".to_string()];
    let mut last = 0u64;
    assert!(ensure_critical_assets_available_system(&mut last, &ids, &vec![true, true, true], &m, 10_000).is_empty());
    let r = ensure_critical_assets_available_system(&mut last, &ids, &vec![true, false, false], &m, 10_000);
    assert_eq!(r.len(), 2);
    assert_eq!(r[0].asset_id, "stars");
    assert_eq!(r[0].known_asset_version, Some(5));
    assert_eq!(r[0].known_sha256_hex.as_deref(), Some("s5"));
    assert_eq!(r[1].asset_id, "bg");
    assert!(r[1].known_asset_version.is_none());
    assert_eq!(last, 10_000);
    assert!(ensure_critical_assets_available_system(&mut last, &ids, &vec![true, false, false], &m, 11_999).is_empty());
    assert_eq!(ensure_critical_assets_available_system(&mut last, &ids, &vec![true, false, false], &m, 12_000).len(), 2);
}

#[test]
fn critical_assets_have_built_in_cache_paths() {
    let mut m = LocalAssetManager::new();
    m.records_by_asset_id.push(ready_record("corvette", "models/custom.glb"));
    let (c, s, b) = ("corvette".to_string(), "stars".to_string(), "bg".to_string());
    assert_eq!(critical_asset_cache_path(&c, &m, &c, &s, &b).as_deref(), Some("models/custom.glb"));
    assert_eq!(critical_asset_cache_path(&s, &m, &c, &s, &b).as_deref(), Some("shaders/starfield.wgsl"));
    assert_eq!(critical_asset_cache_path(&b, &m, &c, &s, &b).as_deref(), Some("shaders/simple_space_background.wgsl"));
    assert_eq!(critical_asset_cache_path(&"x".to_string(), &m, &c, &s, &b), None);
    let empty = LocalAssetManager::new();
    assert_eq!(critical_asset_cache_path(&c, &empty, &c, &s, &b).as_deref(), Some("models/corvette_01/corvette_01.gltf"));
}

#[test]
fn stale_cached_copy_is_requested_with_its_known_version() {
    let mut m = LocalAssetManager::new();
    m.cache_index.push(AssetCacheIndexRecord { asset_id: "hull".to_string(), asset_version: 2, sha256_hex: "old".to_string() });
    let mut stream = AssetStreamState::new();
    let req = receive_asset_stream_manifest_entry(&mut m, &mut stream, manifest_entry("hull", 1, 7), true, false).unwrap();
    assert_eq!(req.known_asset_version, Some(2));
    assert_eq!(req.known_sha256_hex.as_deref(), Some("old"));
    assert_eq!(stream.pending_count(), 1);
}
