//! The quick-search window: what showing or toggling it does.

use vstd::prelude::*;

use crate::text::str_eq;

verus! {

/// How the search window is asked to appear.
#[derive(Clone, Copy, Debug, PartialEq, Eq)]
pub enum Mode {
    Show,
    Toggle,
}

/// What is done to the window.
#[derive(Clone, Copy, Debug, PartialEq, Eq)]
pub enum WindowAction {
    /// Hide it.
    Hide,
    /// Show it, focus it and announce that it is shown.
    ShowAndFocus,
}

/// Toggling a visible window hides it; every other request shows it.
pub fn window_action(mode: Mode, visible: bool) -> (a: WindowAction)
    ensures
        a == (if mode == Mode::Toggle && visible { WindowAction::Hide } else { WindowAction::ShowAndFocus }),
{
    match mode {
        Mode::Toggle => if visible { WindowAction::Hide } else { WindowAction::ShowAndFocus },
        Mode::Show => WindowAction::ShowAndFocus,
    }
}

/// How a change of the global search shortcut is carried out.
#[derive(Clone, Copy, Debug, PartialEq, Eq)]
pub enum ShortcutPlan {
    /// The binding stays the same but is not registered: register it, then store it.
    RegisterThenPersist,
    /// Swap the registered binding for the new one, then store it.
    Reregister,
}

/// Keeping the same binding while it is unregistered only registers it;
/// every other change swaps the registration.
pub fn shortcut_plan(current: &str, replacement: &str, current_registered: bool) -> (p: ShortcutPlan)
    ensures
        p == (if current@ == replacement@ && !current_registered { ShortcutPlan::RegisterThenPersist } else { ShortcutPlan::Reregister }),
{
    if str_eq(current, replacement) && !current_registered {
        ShortcutPlan::RegisterThenPersist
    } else {
        ShortcutPlan::Reregister
    }
}

}
