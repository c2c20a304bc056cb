use sidereal_client::pause_menu::{
    handle_pause_menu_interactions_system, toggle_pause_menu_system, PauseMenuAction, PauseMenuState, WindowModeKind,
};

#[test]
fn escape_toggles_the_menu_unless_the_console_is_open() {
    let mut st = PauseMenuState { open: false };
    toggle_pause_menu_system(&mut st, false, true);
    assert!(st.open);
    toggle_pause_menu_system(&mut st, true, true);
    assert!(st.open);
    toggle_pause_menu_system(&mut st, false, false);
    assert!(st.open);
    toggle_pause_menu_system(&mut st, false, true);
    assert!(!st.open);
}

#[test]
fn menu_buttons_ask_for_their_effects() {
    let mut st = PauseMenuState { open: true };
    let mut disconnect = false;
    let e = handle_pause_menu_interactions_system(PauseMenuAction::ToggleFullscreen, &mut st, &mut disconnect, Some(WindowModeKind::Windowed));
    assert_eq!(e.window_mode, Some(WindowModeKind::BorderlessFullscreen));
    let e = handle_pause_menu_interactions_system(PauseMenuAction::ToggleFullscreen, &mut st, &mut disconnect, Some(WindowModeKind::Fullscreen));
    assert_eq!(e.window_mode, Some(WindowModeKind::Windowed));
    let e = handle_pause_menu_interactions_system(PauseMenuAction::ToggleFullscreen, &mut st, &mut disconnect, None);
    assert_eq!(e.window_mode, None);
    assert!(st.open);
    let e = handle_pause_menu_interactions_system(PauseMenuAction::Settings, &mut st, &mut disconnect, None);
    assert!(!e.exit_app && st.open && !disconnect);
    handle_pause_menu_interactions_system(PauseMenuAction::Disconnect, &mut st, &mut disconnect, None);
    assert!(disconnect && !st.open);
    st.open = true;
    let e = handle_pause_menu_interactions_system(PauseMenuAction::Quit, &mut st, &mut disconnect, None);
    assert!(e.exit_app && !st.open);
}
