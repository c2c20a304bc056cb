use sidereal_client::hierarchy::{
    sanitize_conflicting_prediction_interpolation_markers_system, sanitize_invalid_childof_hierarchy_links,
};

fn sorted(mut v: Vec<u64>) -> Vec<u64> {
    v.sort();
    v
}

#[test]
fn valid_chains_keep_their_links() {
    assert!(sanitize_invalid_childof_hierarchy_links(&vec![(1, 2), (2, 3), (4, 3)]).is_empty());
    let chain: Vec<(u64, u64)> = (0..300u64).map(|i| (i, i + 1)).collect();
    assert!(sanitize_invalid_childof_hierarchy_links(&chain).is_empty());
    assert!(sanitize_invalid_childof_hierarchy_links(&Vec::new()).is_empty());
}

#[test]
fn self_links_and_cycles_are_broken() {
    assert_eq!(sanitize_invalid_childof_hierarchy_links(&vec![(5, 5), (6, 7)]), vec![5]);
    assert_eq!(sorted(sanitize_invalid_childof_hierarchy_links(&vec![(1, 2), (2, 1)])), vec![1, 2]);
    assert_eq!(sorted(sanitize_invalid_childof_hierarchy_links(&vec![(1, 2), (2, 3), (3, 2)])), vec![1, 2, 3]);
}

#[test]
fn the_later_link_of_a_child_counts() {
    assert!(sanitize_invalid_childof_hierarchy_links(&vec![(1, 1), (1, 2)]).is_empty());
    assert_eq!(sanitize_invalid_childof_hierarchy_links(&vec![(1, 2), (1, 1)]), vec![1]);
}

#[test]
fn conflicting_markers_keep_prediction_only_for_the_control_target() {
    assert!(sanitize_conflicting_prediction_interpolation_markers_system(true, false, None, None, None));
    assert!(sanitize_conflicting_prediction_interpolation_markers_system(false, true, None, None, None));
    assert!(sanitize_conflicting_prediction_interpolation_markers_system(false, false, Some(4), Some(4), Some(9)));
    assert!(!sanitize_conflicting_prediction_interpolation_markers_system(false, false, Some(9), Some(4), Some(9)));
    assert!(sanitize_conflicting_prediction_interpolation_markers_system(false, false, Some(9), None, Some(9)));
    assert!(!sanitize_conflicting_prediction_interpolation_markers_system(false, false, None, None, None));
}

#[test]
fn every_member_of_a_short_parent_loop_is_unlinked() {
    // 4 hangs below the loop: its walk up runs into the loop, so its link goes too; 6 does not.
    let links = vec![(1u64, 2u64), (2, 3), (3, 1), (4, 1), (6, 7)];
    let mut removed = sidereal_client::hierarchy::sanitize_invalid_childof_hierarchy_links(&links);
    removed.sort();
    assert_eq!(removed, vec![1, 2, 3, 4]);
}
