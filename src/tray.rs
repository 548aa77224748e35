//! Decisions of the tray menu and of the main window's toggle.
use vstd::prelude::*;

verus! {

/// What a tray menu item asks for.
#[derive(Clone, Copy, Debug, PartialEq, Eq, Structural)]
pub enum MenuAction {
    ToggleWindow,
    Quit,
    /// An item the menu does not handle.
    Ignore,
}

/// What toggling the main window does.
#[derive(Clone, Copy, Debug, PartialEq, Eq, Structural)]
pub enum WindowAction {
    Hide,
    /// Center, show and focus it.
    Show,
    /// Build it anew.
    Build,
}

pub open spec fn menu_action_of(id: Seq<char>) -> MenuAction {
    if id == "toggle"@ {
        MenuAction::ToggleWindow
    } else if id == "quit"@ {
        MenuAction::Quit
    } else {
        MenuAction::Ignore
    }
}

/// The action of the tray menu item with the given id.
pub fn handle_menu_event(id: &str) -> (r: MenuAction)
    ensures
        r == menu_action_of(id@),
{
    if crate::queries::text_eq(id, "toggle") {
        MenuAction::ToggleWindow
    } else if crate::queries::text_eq(id, "quit") {
        MenuAction::Quit
    } else {
        MenuAction::Ignore
    }
}

/// Toggling the main window: a visible one is hidden, a hidden one is
/// shown, and a missing one is built.
pub fn handle_toggle_window(exists: bool, visible: bool) -> (r: WindowAction)
    ensures
        r == (if !exists {
            WindowAction::Build
        } else if visible {
            WindowAction::Hide
        } else {
            WindowAction::Show
        }),
{
    if !exists {
        WindowAction::Build
    } else if visible {
        WindowAction::Hide
    } else {
        WindowAction::Show
    }
}

} // verus!
