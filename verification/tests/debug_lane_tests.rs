use sidereal_client::debug_lanes::{
    resolve_auxiliary_candidate, resolve_root_candidates, AuxiliaryDebugCandidate, ConfirmedGhostPose,
    DebugEntityLane, RootDebugCandidate,
};

fn root_candidate(
    raw: u32,
    is_controlled: bool,
    is_replicated: bool,
    is_interpolated: bool,
    is_predicted: bool,
    confirmed_pose: Option<(f32, f32)>,
) -> RootDebugCandidate<(f32, f32)> {
    RootDebugCandidate {
        entity_bits: raw as u64,
        is_controlled,
        is_replicated,
        is_interpolated,
        is_predicted,
        has_confirmed_wrappers: confirmed_pose.is_some(),
        confirmed_pose,
        pose: (raw as f32, 0.0),
    }
}

fn auxiliary_candidate(
    raw: u32,
    guid: u128,
    parent_root_guid: u128,
    is_replicated: bool,
    is_interpolated: bool,
    is_predicted: bool,
) -> AuxiliaryDebugCandidate<(f32, f32)> {
    AuxiliaryDebugCandidate {
        entity_bits: raw as u64,
        guid,
        parent_root_guid,
        is_replicated,
        is_interpolated,
        is_predicted,
        pose: (raw as f32, 0.0),
    }
}

#[test]
fn controlled_guid_prefers_predicted_lane_and_confirmed_ghost() {
    let candidates = vec![
        root_candidate(2, true, true, false, true, Some((10.0, 20.0))),
        root_candidate(1, true, true, false, false, None),
    ];

    let resolved = resolve_root_candidates(&candidates);

    assert_eq!(resolved.primary_lane, DebugEntityLane::Predicted);
    assert_eq!(candidates[resolved.primary.unwrap()].entity_bits, 2);
    assert!(resolved.confirmed_ghost.is_some());
    match resolved.confirmed_ghost.unwrap().pose {
        ConfirmedGhostPose::Confirmed(pose) => assert_eq!(pose, (10.0, 20.0)),
        ConfirmedGhostPose::PrimaryAtRest => panic!("expected the confirmed pose"),
    }
}

#[test]
fn remote_guid_prefers_interpolated_over_confirmed() {
    let candidates = vec![
        root_candidate(4, false, true, false, false, None),
        root_candidate(3, false, true, true, false, None),
    ];

    let resolved = resolve_root_candidates(&candidates);

    assert_eq!(resolved.primary_lane, DebugEntityLane::Interpolated);
    assert_eq!(candidates[resolved.primary.unwrap()].entity_bits, 3);
    assert!(resolved.confirmed_ghost.is_none());
}

#[test]
fn auxiliary_guid_follows_parent_predicted_lane() {
    let parent_guid: u128 = 0x1111;
    let child_guid: u128 = 0x2222;
    let resolved_root_lanes = vec![(parent_guid, DebugEntityLane::Predicted)];
    let candidates = vec![
        auxiliary_candidate(4, child_guid, parent_guid, true, false, false),
        auxiliary_candidate(3, child_guid, parent_guid, true, false, true),
    ];

    let resolved = resolve_auxiliary_candidate(&candidates, &resolved_root_lanes).expect("predicted auxiliary winner");

    assert_eq!(candidates[resolved].entity_bits, 3);
}

#[test]
fn controlled_confirmed_copy_without_wrappers_gets_a_ghost_at_rest() {
    let candidates = vec![root_candidate(7, true, true, false, false, None)];
    let resolved = resolve_root_candidates(&candidates);
    assert_eq!(resolved.primary_lane, DebugEntityLane::Confirmed);
    let ghost = resolved.confirmed_ghost.unwrap();
    assert_eq!(ghost.entity_bits, 7);
    assert!(matches!(ghost.pose, ConfirmedGhostPose::PrimaryAtRest));
}

#[test]
fn auxiliary_without_known_parent_uses_plain_replicated_copy() {
    let candidates = vec![
        auxiliary_candidate(9, 5, 6, true, true, false),
        auxiliary_candidate(8, 5, 6, true, false, false),
    ];
    let resolved = resolve_auxiliary_candidate(&candidates, &Vec::new()).unwrap();
    assert_eq!(candidates[resolved].entity_bits, 8);
}
