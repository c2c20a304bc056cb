use sidereal_client::manifest::{
    apply_owner_manifest_delta, apply_owner_manifest_snapshot, receive_owner_asset_manifest_messages,
    ManifestDeltaOutcome, OwnedAssetEntry, OwnedAssetManifestCache, ServerOwnerAssetManifestDeltaMessage,
    ServerOwnerAssetManifestSnapshotMessage,
};

#[derive(Debug, Clone)]
struct Details {
    display_name: String,
    kind: String,
}

fn entry(entity_id: &str, display_name: &str) -> OwnedAssetEntry<Details> {
    OwnedAssetEntry {
        entity_id: entity_id.to_string(),
        data: Details { display_name: display_name.to_string(), kind: "ship".to_string() },
    }
}

#[test]
fn manifest_delta_adds_spawned_ship_for_owned_selection_panel() {
    let player_id = "11111111-1111-1111-1111-111111111111".to_string();
    let mut cache = OwnedAssetManifestCache::new_for_player(Some(player_id.clone()));
    apply_owner_manifest_snapshot(
        &mut cache,
        &player_id,
        ServerOwnerAssetManifestSnapshotMessage {
            player_entity_id: player_id.clone(),
            sequence: 1,
            assets: vec![entry("aaaaaaaa-aaaa-4aaa-8aaa-aaaaaaaaaaaa", "Starter Corvette")],
            generated_at_tick: 10,
        },
    );

    let spawned_entity_id = "bbbbbbbb-bbbb-4bbb-8bbb-bbbbbbbbbbbb".to_string();
    apply_owner_manifest_delta(
        &mut cache,
        &player_id,
        ServerOwnerAssetManifestDeltaMessage {
            player_entity_id: player_id.clone(),
            sequence: 2,
            base_sequence: 1,
            upserts: vec![entry(spawned_entity_id.as_str(), "Dashboard Corvette")],
            removals: Vec::new(),
            generated_at_tick: 11,
        },
        10_000,
    );

    assert!(cache.contains_asset(&spawned_entity_id));
}

fn delta(player: &str, sequence: u64, base: u64, upserts: Vec<OwnedAssetEntry<Details>>, removals: Vec<&str>) -> ServerOwnerAssetManifestDeltaMessage<Details> {
    ServerOwnerAssetManifestDeltaMessage {
        player_entity_id: player.to_string(),
        sequence,
        base_sequence: base,
        upserts,
        removals: removals.into_iter().map(|s| s.to_string()).collect(),
        generated_at_tick: sequence * 10,
    }
}

#[test]
fn replayed_delta_is_a_sequence_mismatch_and_changes_nothing() {
    let player = "p".to_string();
    let mut cache = OwnedAssetManifestCache::new_for_player(Some(player.clone()));
    let first = apply_owner_manifest_delta(&mut cache, &player, delta("p", 1, 0, vec![entry("a", "A")], vec![]), 0);
    assert_eq!(first, ManifestDeltaOutcome::Applied);
    let again = apply_owner_manifest_delta(&mut cache, &player, delta("p", 1, 0, vec![entry("a", "A")], vec![]), 5000);
    assert_eq!(again, ManifestDeltaOutcome::SequenceMismatch { report: true });
    assert_eq!(cache.sequence, 1);
    assert_eq!(cache.assets_by_entity_id.len(), 1);
    let soon = apply_owner_manifest_delta(&mut cache, &player, delta("p", 1, 0, vec![], vec![]), 5500);
    assert_eq!(soon, ManifestDeltaOutcome::SequenceMismatch { report: false });
}

#[test]
fn delta_removes_before_upserting_and_ignores_other_players() {
    let player = "p".to_string();
    let mut cache = OwnedAssetManifestCache::new_for_player(Some(player.clone()));
    apply_owner_manifest_delta(&mut cache, &player, delta("p", 1, 0, vec![entry("a", "A"), entry("b", "B")], vec![]), 0);
    let outcome = apply_owner_manifest_delta(&mut cache, &player, delta("p", 2, 1, vec![entry("a", "A2")], vec!["a", "b"]), 0);
    assert_eq!(outcome, ManifestDeltaOutcome::Applied);
    assert!(cache.contains_asset(&"a".to_string()));
    assert!(!cache.contains_asset(&"b".to_string()));
    assert_eq!(cache.assets_by_entity_id[0].data.display_name, "A2");
    let other = apply_owner_manifest_delta(&mut cache, &player, delta("q", 3, 2, vec![entry("c", "C")], vec![]), 0);
    assert_eq!(other, ManifestDeltaOutcome::OtherPlayer);
    assert!(!cache.contains_asset(&"c".to_string()));
}

#[test]
fn stale_snapshot_is_ignored_and_newer_one_replaces() {
    let player = "p".to_string();
    let mut cache = OwnedAssetManifestCache::new_for_player(Some(player.clone()));
    let snap = |seq: u64, ids: &[&str]| ServerOwnerAssetManifestSnapshotMessage {
        player_entity_id: "p".to_string(),
        sequence: seq,
        assets: ids.iter().map(|id| entry(id, id)).collect(),
        generated_at_tick: seq,
    };
    assert!(apply_owner_manifest_snapshot(&mut cache, &player, snap(5, &["x"])));
    assert!(!apply_owner_manifest_snapshot(&mut cache, &player, snap(4, &["y"])));
    assert!(cache.contains_asset(&"x".to_string()));
    assert!(apply_owner_manifest_snapshot(&mut cache, &player, snap(5, &["y"])));
    assert!(!cache.contains_asset(&"x".to_string()));
    assert!(cache.contains_asset(&"y".to_string()));
    assert_eq!(cache.generated_at_tick, 5);
}

#[test]
fn receiving_for_a_new_player_resets_the_cache() {
    let mut cache = OwnedAssetManifestCache::new_for_player(Some("old".to_string()));
    cache.sequence = 9;
    receive_owner_asset_manifest_messages(
        &mut cache,
        Some("new".to_string()),
        vec![],
        vec![delta("new", 1, 0, vec![entry("z", "Z")], vec![])],
        0,
    );
    assert_eq!(cache.player_entity_id.as_deref(), Some("new"));
    assert_eq!(cache.sequence, 1);
    assert!(cache.contains_asset(&"z".to_string()));
    receive_owner_asset_manifest_messages(&mut cache, None, vec![], vec![delta("new", 2, 1, vec![], vec!["z"])], 0);
    assert!(cache.contains_asset(&"z".to_string()));
}

#[test]
fn applying_the_same_snapshot_twice_equals_once() {
    let player = "p".to_string();
    let mut cache = OwnedAssetManifestCache::new_for_player(Some(player.clone()));
    let snap = || ServerOwnerAssetManifestSnapshotMessage {
        player_entity_id: "p".to_string(),
        sequence: 3,
        assets: vec![entry("x", "X"), entry("y", "Y"), entry("x", "X2")],
        generated_at_tick: 7,
    };
    apply_owner_manifest_snapshot(&mut cache, &player, snap());
    let once: Vec<(String, String)> =
        cache.assets_by_entity_id.iter().map(|e| (e.entity_id.clone(), e.data.display_name.clone())).collect();
    apply_owner_manifest_snapshot(&mut cache, &player, snap());
    let twice: Vec<(String, String)> =
        cache.assets_by_entity_id.iter().map(|e| (e.entity_id.clone(), e.data.display_name.clone())).collect();
    let mut a = once.clone();
    let mut b = twice.clone();
    a.sort();
    b.sort();
    assert_eq!(a, b);
    assert_eq!(cache.sequence, 3);
    assert_eq!(cache.generated_at_tick, 7);
}
