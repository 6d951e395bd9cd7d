//! Events that editor panels send each other, and the editor's menu bar.

use vstd::prelude::*;

verus! {

/// What an editor event asks for.
#[derive(Clone, Copy, PartialEq, Eq, Structural)]
pub enum EditorEventType {
    /// Show the entity whose runtime id is the event's data in the inspector.
    ShowEntityInInspector,
}

/// An event from one editor panel to another, with its data as text.
pub struct EditorEvent {
    pub event_type: EditorEventType,
    pub event_data: String,
}

/// The editor's menu bar; it holds no state.
pub struct MenuBarPanel {}

} // verus!
