use sidereal_client::control::LocalPlayerViewState;
use sidereal_client::owned_ships::{
    handle_owned_ships_panel_buttons, owned_ship_ids, owned_ships_panel_button_selected, update_owned_ships_panel_system,
    OwnedShipView, OwnedShipsPanelAction, OwnedShipsPanelState,
};

fn ship(name: &str, owner: Option<&str>) -> OwnedShipView {
    OwnedShipView {
        name: name.to_string(),
        owner_id: owner.map(|o| o.to_string()),
        mounted: false,
        has_hardpoint: false,
        has_player_tag: false,
    }
}

fn view(controlled: Option<&str>, desired: Option<&str>, detached: bool) -> LocalPlayerViewState {
    LocalPlayerViewState {
        controlled_entity_id: controlled.map(|s| s.to_string()),
        desired_controlled_entity_id: desired.map(|s| s.to_string()),
        selected_entity_id: None,
        detached_free_camera: detached,
    }
}

fn fresh_panel() -> OwnedShipsPanelState {
    OwnedShipsPanelState { last_ship_ids: Vec::new(), last_selected_id: None, last_detached_mode: false }
}

#[test]
fn owned_ships_are_filtered_sorted_and_unique() {
    let mut mounted = ship("ship:zeta", Some("me"));
    mounted.mounted = true;
    let ships = vec![
        ship("ship:b", Some("me")),
        ship("ship:a", Some("me")),
        ship("ship:b", Some("me")),
        ship("ship:c", Some("you")),
        ship("station:x", Some("me")),
        ship("ship:d", None),
        mounted,
    ];
    assert_eq!(owned_ship_ids(&ships, &"me".to_string()), vec!["ship:a".to_string(), "ship:b".to_string()]);
    assert!(owned_ship_ids(&Vec::new(), &"me".to_string()).is_empty());
}

#[test]
fn panel_is_rebuilt_only_on_change() {
    let ships = vec![ship("ship:a", Some("me"))];
    let me = Some("me".to_string());
    let mut st = fresh_panel();
    let v = view(Some("me"), None, false);
    assert!(update_owned_ships_panel_system(&mut st, &ships, &None, &v, false).is_none());
    let panel = update_owned_ships_panel_system(&mut st, &ships, &me, &v, false).unwrap();
    assert_eq!(panel.ship_ids, vec!["ship:a".to_string()]);
    assert_eq!(panel.selected_id.as_deref(), Some("me"));
    assert!(panel.free_roam_selected);
    assert!(update_owned_ships_panel_system(&mut st, &ships, &me, &v, true).is_none());
    let v2 = view(Some("me"), Some("ship:a"), false);
    let panel = update_owned_ships_panel_system(&mut st, &ships, &me, &v2, true).unwrap();
    assert_eq!(panel.selected_id.as_deref(), Some("ship:a"));
    assert!(!panel.free_roam_selected);
    let more = vec![ship("ship:a", Some("me")), ship("ship:0", Some("me"))];
    let panel = update_owned_ships_panel_system(&mut st, &more, &me, &v2, true).unwrap();
    assert_eq!(panel.ship_ids, vec!["ship:0".to_string(), "ship:a".to_string()]);
}

#[test]
fn panel_buttons_set_the_control_target() {
    let me = Some("me".to_string());
    let mut v = view(Some("me"), None, true);
    let mut focus = None;
    let mut st = fresh_panel();
    st.last_selected_id = Some("x".to_string());
    let pick = OwnedShipsPanelAction::ControlEntity("ship:a".to_string());
    handle_owned_ships_panel_buttons(&pick, &mut v, &mut focus, &mut st, &me);
    assert_eq!(v.desired_controlled_entity_id.as_deref(), Some("ship:a"));
    assert_eq!(v.selected_entity_id.as_deref(), Some("ship:a"));
    assert_eq!(focus.as_deref(), Some("ship:a"));
    assert!(!v.detached_free_camera);
    assert!(st.last_selected_id.is_none());
    assert!(owned_ships_panel_button_selected(&pick, &v, &me));
    assert!(!owned_ships_panel_button_selected(&OwnedShipsPanelAction::FreeRoam, &v, &me));
    handle_owned_ships_panel_buttons(&OwnedShipsPanelAction::FreeRoam, &mut v, &mut focus, &mut st, &me);
    assert_eq!(v.desired_controlled_entity_id.as_deref(), Some("me"));
    assert!(v.selected_entity_id.is_none());
    assert!(focus.is_none());
    assert!(owned_ships_panel_button_selected(&OwnedShipsPanelAction::FreeRoam, &v, &me));
}
