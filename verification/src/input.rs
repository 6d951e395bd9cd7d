//! Mouse and editor-panel state shared between the window loop and the
//! component systems.

use vstd::prelude::*;

verus! {

/// The part of the input state that the engine's decisions read: which mouse
/// buttons are held and whether the renderer panel has focus.
pub struct Input {
    pub mouse_left_is_pressed: bool,
    pub mouse_right_is_pressed: bool,
    pub renderer_panel_active: bool,
}

/// One change of the input state, as a setter makes it.
pub enum InputChange {
    MouseLeft(bool),
    MouseRight(bool),
    RendererPanel(bool),
}

/// The state after one change: the changed flag takes the new value, the
/// others keep theirs.
pub open spec fn input_changed(input: Input, change: InputChange) -> Input {
    match change {
        InputChange::MouseLeft(b) => Input { mouse_left_is_pressed: b, ..input },
        InputChange::MouseRight(b) => Input { mouse_right_is_pressed: b, ..input },
        InputChange::RendererPanel(b) => Input { renderer_panel_active: b, ..input },
    }
}

/// The state after a sequence of changes, the first applied first.
pub open spec fn input_after(input: Input, changes: Seq<InputChange>) -> Input
    decreases changes.len(),
{
    if changes.len() == 0 {
        input
    } else {
        input_changed(input_after(input, changes.drop_last()), changes.last())
    }
}

/// The value of the last `MouseLeft` change, `default` when there is none.
pub open spec fn last_mouse_left(changes: Seq<InputChange>, default: bool) -> bool
    decreases changes.len(),
{
    if changes.len() == 0 {
        default
    } else {
        match changes.last() {
            InputChange::MouseLeft(b) => b,
            _ => last_mouse_left(changes.drop_last(), default),
        }
    }
}

/// The value of the last `MouseRight` change, `default` when there is none.
pub open spec fn last_mouse_right(changes: Seq<InputChange>, default: bool) -> bool
    decreases changes.len(),
{
    if changes.len() == 0 {
        default
    } else {
        match changes.last() {
            InputChange::MouseRight(b) => b,
            _ => last_mouse_right(changes.drop_last(), default),
        }
    }
}

/// The value of the last `RendererPanel` change, `default` when there is none.
pub open spec fn last_renderer_panel(changes: Seq<InputChange>, default: bool) -> bool
    decreases changes.len(),
{
    if changes.len() == 0 {
        default
    } else {
        match changes.last() {
            InputChange::RendererPanel(b) => b,
            _ => last_renderer_panel(changes.drop_last(), default),
        }
    }
}

/// Each flag reads back the value of its last change, whatever other flags
/// were changed after it, and its first value when it was never changed.
pub proof fn lemma_flags_read_last_change(input: Input, changes: Seq<InputChange>)
    ensures
        input_after(input, changes).mouse_left_is_pressed == last_mouse_left(changes, input.mouse_left_is_pressed),
        input_after(input, changes).mouse_right_is_pressed == last_mouse_right(
            changes,
            input.mouse_right_is_pressed,
        ),
        input_after(input, changes).renderer_panel_active == last_renderer_panel(
            changes,
            input.renderer_panel_active,
        ),
    decreases changes.len(),
{
    if changes.len() > 0 {
        lemma_flags_read_last_change(input, changes.drop_last());
    }
}

impl Input {
    /// The state before any event: nothing pressed, panel inactive.
    pub fn new() -> (r: Input)
        ensures
            !r.mouse_left_is_pressed,
            !r.mouse_right_is_pressed,
            !r.renderer_panel_active,
    {
        Input { mouse_left_is_pressed: false, mouse_right_is_pressed: false, renderer_panel_active: false }
    }
}

/// Records whether the left mouse button is held; nothing else changes.
pub fn set_mouse_left_pressed(input: &mut Input, is_pressed: bool)
    ensures
        *final(input) == input_changed(*old(input), InputChange::MouseLeft(is_pressed)),
        final(input).mouse_left_is_pressed == is_pressed,
        final(input).mouse_right_is_pressed == old(input).mouse_right_is_pressed,
        final(input).renderer_panel_active == old(input).renderer_panel_active,
{
    input.mouse_left_is_pressed = is_pressed;
}

/// Whether the left mouse button is held.
pub fn is_mouse_left_pressed(input: &Input) -> (r: bool)
    ensures
        r == input.mouse_left_is_pressed,
{
    input.mouse_left_is_pressed
}

/// Records whether the right mouse button is held; nothing else changes.
pub fn set_mouse_right_pressed(input: &mut Input, is_pressed: bool)
    ensures
        *final(input) == input_changed(*old(input), InputChange::MouseRight(is_pressed)),
        final(input).mouse_right_is_pressed == is_pressed,
        final(input).mouse_left_is_pressed == old(input).mouse_left_is_pressed,
        final(input).renderer_panel_active == old(input).renderer_panel_active,
{
    input.mouse_right_is_pressed = is_pressed;
}

/// Whether the right mouse button is held.
pub fn is_mouse_right_pressed(input: &Input) -> (r: bool)
    ensures
        r == input.mouse_right_is_pressed,
{
    input.mouse_right_is_pressed
}

/// Records whether the renderer panel has focus; nothing else changes.
pub fn set_renderer_panel_active(input: &mut Input, is_active: bool)
    ensures
        *final(input) == input_changed(*old(input), InputChange::RendererPanel(is_active)),
        final(input).renderer_panel_active == is_active,
        final(input).mouse_left_is_pressed == old(input).mouse_left_is_pressed,
        final(input).mouse_right_is_pressed == old(input).mouse_right_is_pressed,
{
    input.renderer_panel_active = is_active;
}

/// Whether the renderer panel has focus.
pub fn is_renderer_panel_active(input: &Input) -> (r: bool)
    ensures
        r == input.renderer_panel_active,
{
    input.renderer_panel_active
}

} // verus!
