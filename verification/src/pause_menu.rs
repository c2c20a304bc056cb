//! The in-world pause menu: when it opens and closes, and what its buttons ask for.

use vstd::prelude::*;

verus! {

/// Whether the pause menu is shown.
#[derive(Debug, Clone, Copy, PartialEq, Eq)]
pub struct PauseMenuState {
    pub open: bool,
}

/// Escape opens or closes the pause menu, unless the developer console is open (it takes the
/// keys then).
pub fn toggle_pause_menu_system(state: &mut PauseMenuState, console_open: bool, escape_pressed: bool)
    ensures
        final(state).open == if !console_open && escape_pressed { !old(state).open } else { old(state).open },
{
    if console_open {
        return;
    }
    if escape_pressed {
        state.open = !state.open;
    }
}

/// The buttons of the pause menu.
#[derive(Debug, Clone, Copy, PartialEq, Eq)]
pub enum PauseMenuAction {
    ToggleFullscreen,
    Settings,
    Disconnect,
    Quit,
}

/// How the window is shown.
#[derive(Debug, Clone, Copy, PartialEq, Eq)]
pub enum WindowModeKind {
    Windowed,
    BorderlessFullscreen,
    Fullscreen,
}

/// What a pressed button asks of the application.
#[derive(Debug, Clone, Copy, PartialEq, Eq)]
pub struct PauseMenuEffect {
    /// The window mode to switch to.
    pub window_mode: Option<WindowModeKind>,
    /// Quit the application.
    pub exit_app: bool,
}

/// A pressed pause-menu button: fullscreen toggles between windowed and borderless
/// fullscreen (any fullscreen goes back to windowed); disconnect requests a logout and closes
/// the menu; quit closes it and exits; settings does nothing yet.
pub fn handle_pause_menu_interactions_system(
    action: PauseMenuAction,
    state: &mut PauseMenuState,
    disconnect_request: &mut bool,
    current_window_mode: Option<WindowModeKind>,
) -> (r: PauseMenuEffect)
    ensures
        r.exit_app == (action == PauseMenuAction::Quit),
        r.window_mode == if action == PauseMenuAction::ToggleFullscreen {
            match current_window_mode {
                Some(WindowModeKind::Windowed) => Some(WindowModeKind::BorderlessFullscreen),
                Some(_) => Some(WindowModeKind::Windowed),
                None => None,
            }
        } else {
            None
        },
        final(state).open == (old(state).open && action != PauseMenuAction::Disconnect && action != PauseMenuAction::Quit),
        *final(disconnect_request) == (*old(disconnect_request) || action == PauseMenuAction::Disconnect),
{
    match action {
        PauseMenuAction::ToggleFullscreen => {
            let window_mode = match current_window_mode {
                Some(WindowModeKind::Windowed) => Some(WindowModeKind::BorderlessFullscreen),
                Some(_) => Some(WindowModeKind::Windowed),
                None => None,
            };
            PauseMenuEffect { window_mode, exit_app: false }
        },
        PauseMenuAction::Disconnect => {
            *disconnect_request = true;
            state.open = false;
            PauseMenuEffect { window_mode: None, exit_app: false }
        },
        PauseMenuAction::Quit => {
            state.open = false;
            PauseMenuEffect { window_mode: None, exit_app: true }
        },
        PauseMenuAction::Settings => PauseMenuEffect { window_mode: None, exit_app: false },
    }
}

} // verus!
