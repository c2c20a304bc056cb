use sidereal_client::debug_lanes::DebugEntityLane;
use sidereal_client::debug_overlay::{
    build_debug_text_rows, collect_debug_overlay_snapshot, DebugControlledLane, DebugEntityPose,
    DebugOverlayEntityView, DebugOverlayStats, DebugSeverity,
};

const SHIP: u128 = 0x67e5504410b1426f9247bb680e5fe0c8;
const TURRET: u128 = 0x11111111222233334444555555555555;
const PILOT: u128 = 0x99999999888877776666555555555555;

fn view(bits: u64, guid: u128) -> DebugOverlayEntityView<(i32, i32)> {
    DebugOverlayEntityView {
        entity_bits: bits,
        entity_label: format!("{bits}v1"),
        guid,
        pose: (bits as i32, 0),
        confirmed_pose: None,
        mounted_on_parent: None,
        has_hardpoint: false,
        parent_guid: None,
        has_player_tag: false,
        controlled_by_player_entity_id: None,
        is_replicated: true,
        is_interpolated: false,
        is_predicted: false,
        is_suppressed_duplicate: false,
    }
}

fn world() -> Vec<DebugOverlayEntityView<(i32, i32)>> {
    let mut predicted = view(10, SHIP);
    predicted.is_predicted = true;
    predicted.confirmed_pose = Some((1, 2));
    let confirmed = view(11, SHIP);
    let mut player = view(12, PILOT);
    player.has_player_tag = true;
    let mut suppressed = view(13, SHIP);
    suppressed.is_suppressed_duplicate = true;
    let mut turret = view(14, TURRET);
    turret.mounted_on_parent = Some(SHIP);
    vec![predicted, confirmed, player, suppressed, turret]
}

#[test]
fn disabled_overlay_only_advances_the_frame() {
    let snap = collect_debug_overlay_snapshot(false, 41, Some(SHIP), &None, &world());
    assert_eq!(snap.frame_index, 42);
    assert!(snap.entities.is_empty());
    assert!(snap.text_rows.is_empty());
    assert!(snap.controlled_lane.is_none());
    assert_eq!(snap.stats.anomaly_count, 0);
    let last = collect_debug_overlay_snapshot(false, u64::MAX, None, &None, &Vec::<DebugOverlayEntityView<(i32, i32)>>::new());
    assert_eq!(last.frame_index, u64::MAX);
}

#[test]
fn controlled_ship_draws_predicted_copy_ghost_and_turret() {
    let snap = collect_debug_overlay_snapshot(true, 0, Some(SHIP), &None, &world());
    assert_eq!(snap.entities.len(), 3);
    assert_eq!(snap.entities[0].entity_bits, 10);
    assert_eq!(snap.entities[0].lane, DebugEntityLane::Predicted);
    assert!(snap.entities[0].is_controlled);
    assert_eq!(snap.entities[1].lane, DebugEntityLane::ConfirmedGhost);
    assert!(matches!(snap.entities[1].pose, DebugEntityPose::Confirmed((1, 2))));
    assert_eq!(snap.entities[2].entity_bits, 14);
    assert_eq!(snap.entities[2].lane, DebugEntityLane::Auxiliary);
    assert!(snap.entities.iter().all(|e| e.entity_bits != 12 && e.entity_bits != 13));

    assert_eq!(snap.stats.predicted_count, 1);
    assert_eq!(snap.stats.confirmed_count, 1);
    assert_eq!(snap.stats.interpolated_count, 0);
    assert_eq!(snap.stats.auxiliary_count, 1);
    assert_eq!(snap.stats.duplicate_guid_groups, 1);
    assert_eq!(snap.stats.anomaly_count, 1);
    assert_eq!(
        snap.anomalies,
        vec!["controlled guid 67e55044-10b1-426f-9247-bb680e5fe0c8 resolved without a Predicted root".to_string()]
    );
    let lane = snap.controlled_lane.expect("controlled");
    assert_eq!(lane.guid, SHIP);
    assert_eq!(lane.primary_lane, DebugEntityLane::Predicted);
    assert!(lane.has_confirmed_ghost);

    let rows: Vec<(String, String, DebugSeverity)> =
        snap.text_rows.iter().map(|r| (r.label.clone(), r.value.clone(), r.severity)).collect();
    assert_eq!(rows.len(), 9);
    assert_eq!(rows[0], ("Predicted".to_string(), "   1".to_string(), DebugSeverity::Normal));
    assert_eq!(rows[3], ("Duplicate GUIDs".to_string(), "   1".to_string(), DebugSeverity::Warn));
    assert_eq!(rows[5], ("Control Lane".to_string(), "Predicted".to_string(), DebugSeverity::Normal));
    assert_eq!(
        rows[6],
        ("Control GUID".to_string(), "67e55044-10b1-426f-9247-bb680e5fe0c8".to_string(), DebugSeverity::Normal)
    );
    assert_eq!(rows[7], ("Confirmed Ghost".to_string(), "yes".to_string(), DebugSeverity::Normal));
    assert_eq!(rows[8].0, "Alert");
    assert_eq!(rows[8].2, DebugSeverity::Error);
}

#[test]
fn remote_predicted_copies_are_reported_per_guid() {
    let mut a = view(20, TURRET);
    a.is_predicted = true;
    let mut b = view(21, TURRET);
    b.is_predicted = true;
    let snap = collect_debug_overlay_snapshot(true, 0, None, &None, &vec![a, b]);
    assert_eq!(snap.anomalies.len(), 3);
    assert_eq!(snap.anomalies[0], "remote guid 11111111-2222-3333-4444-555555555555 resolved as Predicted");
    assert_eq!(
        snap.anomalies[2],
        "guid 11111111-2222-3333-4444-555555555555 has duplicate lane winners p=2 i=0 c=0"
    );
    assert_eq!(snap.entities.len(), 1);
    assert_eq!(snap.entities[0].entity_bits, 20);
    assert_eq!(snap.entities[0].lane, DebugEntityLane::Confirmed);
    assert!(snap.controlled_lane.is_none());
}

#[test]
fn text_rows_pad_counts_and_flag_missing_ghost() {
    let stats = DebugOverlayStats {
        predicted_count: 12345,
        confirmed_count: 0,
        interpolated_count: 7,
        auxiliary_count: 0,
        duplicate_guid_groups: 0,
        anomaly_count: 0,
    };
    let lane = DebugControlledLane { guid: SHIP, primary_lane: DebugEntityLane::Interpolated, has_confirmed_ghost: false };
    let rows = build_debug_text_rows(&stats, Some(lane), &Vec::new());
    assert_eq!(rows.len(), 8);
    assert_eq!(rows[0].value, "12345");
    assert_eq!(rows[2].value, "   7");
    assert_eq!(rows[3].severity, DebugSeverity::Normal);
    assert_eq!(rows[5].value, "Interpolated");
    assert_eq!(rows[5].severity, DebugSeverity::Warn);
    assert_eq!(rows[7].value, "no");
    assert_eq!(rows[7].severity, DebugSeverity::Warn);
}
