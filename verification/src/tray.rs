//! What the tray menu's entries ask for.
use vstd::prelude::*;
use crate::text::same_text;

verus! {

/// What a tray menu entry asks for.
#[derive(Clone, Copy, Debug, PartialEq, Eq, Structural)]
pub enum TrayAction {
    /// Leave the application.
    Quit,
    /// Show and focus the main window.
    Open,
    /// Stop recording.
    Pause,
    /// Start recording again.
    Resume,
    /// Nothing: the entry is unknown.
    Ignore,
}

/// The action of the tray menu entry whose id is `id`.
pub open spec fn tray_action_of(id: Seq<char>) -> TrayAction {
    if id == "quit"@ {
        TrayAction::Quit
    } else if id == "open"@ {
        TrayAction::Open
    } else if id == "pause"@ {
        TrayAction::Pause
    } else if id == "resume"@ {
        TrayAction::Resume
    } else {
        TrayAction::Ignore
    }
}

/// The action of the tray menu entry whose id is `id` ("quit", "open",
/// "pause" or "resume").
pub fn tray_action(id: &str) -> (a: TrayAction)
    ensures
        a == tray_action_of(id@),
{
    if same_text(id, "quit") {
        TrayAction::Quit
    } else if same_text(id, "open") {
        TrayAction::Open
    } else if same_text(id, "pause") {
        TrayAction::Pause
    } else if same_text(id, "resume") {
        TrayAction::Resume
    } else {
        TrayAction::Ignore
    }
}

} // verus!
