//! The global shortcuts offered to the desktop portal and what their
//! activation means.

use vstd::prelude::*;

verus! {

/// A shortcut to register.
#[derive(Debug, Clone)]
pub struct ShortcutDef {
    pub id: String,
    pub description: String,
    pub preferred_trigger: String,
}

/// An event from the GlobalShortcuts portal.
#[derive(Debug, Clone, PartialEq, Eq)]
pub enum ShortcutEvent {
    Activated { id: String },
    Deactivated { id: String },
    Closed,
}

/// What an activated shortcut asks for.
#[derive(Debug, Clone, Copy, PartialEq, Eq, Structural)]
pub enum ShortcutAction {
    Start,
    Stop,
    Pause,
}

/// The shortcuts registered: start, stop and pause, on Ctrl+Alt+R, S
/// and P.
pub fn default_shortcuts() -> (r: Vec<ShortcutDef>)
    ensures
        r@.len() == 3,
        r@[0].id@ == "start"@,
        r@[0].description@ == "Iniciar grabación"@,
        r@[0].preferred_trigger@ == "Ctrl+Alt+R"@,
        r@[1].id@ == "stop"@,
        r@[1].description@ == "Detener grabación"@,
        r@[1].preferred_trigger@ == "Ctrl+Alt+S"@,
        r@[2].id@ == "pause"@,
        r@[2].description@ == "Pausar/reanudar grabación"@,
        r@[2].preferred_trigger@ == "Ctrl+Alt+P"@,
{
    let mut r: Vec<ShortcutDef> = Vec::new();
    r.push(
        ShortcutDef {
            id: String::from_str("start"),
            description: String::from_str("Iniciar grabación"),
            preferred_trigger: String::from_str("Ctrl+Alt+R"),
        },
    );
    r.push(
        ShortcutDef {
            id: String::from_str("stop"),
            description: String::from_str("Detener grabación"),
            preferred_trigger: String::from_str("Ctrl+Alt+S"),
        },
    );
    r.push(
        ShortcutDef {
            id: String::from_str("pause"),
            description: String::from_str("Pausar/reanudar grabación"),
            preferred_trigger: String::from_str("Ctrl+Alt+P"),
        },
    );
    r
}

pub open spec fn action_for(id: Seq<char>) -> Option<ShortcutAction> {
    if id == "start"@ {
        Some(ShortcutAction::Start)
    } else if id == "stop"@ {
        Some(ShortcutAction::Stop)
    } else if id == "pause"@ {
        Some(ShortcutAction::Pause)
    } else {
        None
    }
}

/// The action of an activated shortcut id; none for an unknown id.
pub fn shortcut_action(id: &str) -> (r: Option<ShortcutAction>)
    ensures
        r == action_for(id@),
{
    if crate::text::str_eq(id, "start") {
        Some(ShortcutAction::Start)
    } else if crate::text::str_eq(id, "stop") {
        Some(ShortcutAction::Stop)
    } else if crate::text::str_eq(id, "pause") {
        Some(ShortcutAction::Pause)
    } else {
        None
    }
}

} // verus!
