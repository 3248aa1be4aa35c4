//! Showing and hiding the console window, and the tray menu.

use vstd::prelude::*;

verus! {

/// What is to be done with the console window.
#[derive(Clone, Copy, Debug, PartialEq, Eq)]
pub enum ConsoleAction {
    Nothing,
    Hide,
    Show,
}

/// What is to be done after a choice in the tray menu.
#[derive(Clone, Copy, Debug, PartialEq, Eq)]
pub enum MenuAction {
    Nothing,
    Quit,
    ToggleConsole,
}

/// What turns the console window over.
pub open spec fn toggled(visible: Option<bool>) -> ConsoleAction {
    match visible {
        None => ConsoleAction::Nothing,
        Some(true) => ConsoleAction::Hide,
        Some(false) => ConsoleAction::Show,
    }
}

/// Whether the console window can be seen after an action.
pub open spec fn visible_after(visible: Option<bool>, action: ConsoleAction) -> Option<bool> {
    match (visible, action) {
        (None, _) => None,
        (Some(v), ConsoleAction::Nothing) => Some(v),
        (Some(_), ConsoleAction::Hide) => Some(false),
        (Some(_), ConsoleAction::Show) => Some(true),
    }
}

/// Turns the console window over: `visible` says whether it can be seen, `None`
/// that there is none.
pub fn toggle_console(visible: Option<bool>) -> (action: ConsoleAction)
    ensures
        action == toggled(visible),
{
    match visible {
        None => ConsoleAction::Nothing,
        Some(true) => ConsoleAction::Hide,
        Some(false) => ConsoleAction::Show,
    }
}

/// Hides the console window, where there is one.
pub fn hide_console(present: bool) -> (action: ConsoleAction)
    ensures
        action == (if present {
            ConsoleAction::Hide
        } else {
            ConsoleAction::Nothing
        }),
{
    if present {
        ConsoleAction::Hide
    } else {
        ConsoleAction::Nothing
    }
}

/// What a choice in the tray menu asks for; quitting comes first.
pub fn menu_action(quit: bool, show: bool) -> (action: MenuAction)
    ensures
        action == (if quit {
            MenuAction::Quit
        } else if show {
            MenuAction::ToggleConsole
        } else {
            MenuAction::Nothing
        }),
{
    if quit {
        MenuAction::Quit
    } else if show {
        MenuAction::ToggleConsole
    } else {
        MenuAction::Nothing
    }
}

/// Turning the console window over changes whether it can be seen, and doing so
/// twice changes nothing.
pub proof fn law_toggle(visible: Option<bool>)
    ensures
        visible matches Some(v) ==> visible_after(visible, toggled(visible)) == Some(!v),
        ({
            let once = visible_after(visible, toggled(visible));
            visible_after(once, toggled(once)) == visible
        }),
{
}

} // verus!
