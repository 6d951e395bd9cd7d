//! The decisions of the window's event loop: what each window event leads
//! to, whether a redraw skips the frame, updates and renders, or only
//! renders, and what a failed surface leads to. The loop that waits for
//! events, reads the clock and drives the renderer performs these actions.

use vstd::prelude::*;

use crate::input::{Input, InputChange, input_changed, set_mouse_left_pressed, set_mouse_right_pressed};

verus! {

/// A mouse button.
#[derive(Clone, Copy, PartialEq, Eq, Structural)]
pub enum MouseButton {
    Left,
    Right,
    Middle,
    Back,
    Forward,
    Other,
}

/// An event of the window, with what the loop's decisions read of it.
#[derive(Clone, Copy, PartialEq, Eq, Structural)]
pub enum WindowEvent {
    Resized { width: u32, height: u32 },
    CloseRequested,
    MouseInput { button: MouseButton, pressed: bool },
    KeyboardInput,
    MouseWheel,
    MouseMotion,
    ScaleFactorChanged,
    RedrawRequested,
    AboutToWait,
    Other,
}

/// What the loop does for an event.
#[derive(Clone, Copy, PartialEq, Eq, Structural)]
pub enum LoopAction {
    /// Resize the renderer (and the editor) to the new size.
    Resize { width: u32, height: u32 },
    /// Leave the loop.
    Exit,
    /// Record whether the left mouse button is held.
    SetMouseLeft(bool),
    /// Record whether the right mouse button is held.
    SetMouseRight(bool),
    /// Hand the key to the application.
    ForwardKeyboard,
    /// Hand the scroll to the application.
    ForwardScroll,
    /// Hand the mouse motion to the application.
    ForwardMouseMotion,
    /// Warn that scale factor changes are not handled.
    WarnScaleFactor,
    /// Draw a frame (see `redraw_step`).
    Redraw,
    /// Ask the window for a redraw.
    RequestRedraw,
    /// Nothing to do.
    Nothing,
}

/// What the loop does for an event: a resize resizes, a close request exits,
/// a left or right button press or release is recorded, keys, scrolls and
/// mouse motion go to the application, a redraw request draws, and the loop
/// asks for a redraw each time it is about to wait.
pub open spec fn action_for(event: WindowEvent) -> LoopAction {
    match event {
        WindowEvent::Resized { width, height } => LoopAction::Resize { width, height },
        WindowEvent::CloseRequested => LoopAction::Exit,
        WindowEvent::MouseInput { button, pressed } => match button {
            MouseButton::Left => LoopAction::SetMouseLeft(pressed),
            MouseButton::Right => LoopAction::SetMouseRight(pressed),
            _ => LoopAction::Nothing,
        },
        WindowEvent::KeyboardInput => LoopAction::ForwardKeyboard,
        WindowEvent::MouseWheel => LoopAction::ForwardScroll,
        WindowEvent::MouseMotion => LoopAction::ForwardMouseMotion,
        WindowEvent::ScaleFactorChanged => LoopAction::WarnScaleFactor,
        WindowEvent::RedrawRequested => LoopAction::Redraw,
        WindowEvent::AboutToWait => LoopAction::RequestRedraw,
        WindowEvent::Other => LoopAction::Nothing,
    }
}

/// Each action of the loop answers exactly one kind of event: closing exits,
/// keys, scrolls and mouse motion are each handed on, a resize resizes to its
/// size, a left or right button sets its own flag to the button's state, and
/// only unhandled events and the other mouse buttons lead to nothing.
pub proof fn lemma_each_action_answers_its_event(event: WindowEvent)
    ensures
        (action_for(event) == LoopAction::Exit) == (event == WindowEvent::CloseRequested),
        (action_for(event) == LoopAction::ForwardKeyboard) == (event == WindowEvent::KeyboardInput),
        (action_for(event) == LoopAction::ForwardScroll) == (event == WindowEvent::MouseWheel),
        (action_for(event) == LoopAction::ForwardMouseMotion) == (event == WindowEvent::MouseMotion),
        (action_for(event) == LoopAction::WarnScaleFactor) == (event == WindowEvent::ScaleFactorChanged),
        (action_for(event) == LoopAction::Redraw) == (event == WindowEvent::RedrawRequested),
        (action_for(event) == LoopAction::RequestRedraw) == (event == WindowEvent::AboutToWait),
        forall|w: u32, h: u32|
            (action_for(event) == (LoopAction::Resize { width: w, height: h })) == (event == (WindowEvent::Resized {
                width: w,
                height: h,
            })),
        forall|b: bool|
            (action_for(event) == LoopAction::SetMouseLeft(b)) == (event == (WindowEvent::MouseInput {
                button: MouseButton::Left,
                pressed: b,
            })),
        forall|b: bool|
            (action_for(event) == LoopAction::SetMouseRight(b)) == (event == (WindowEvent::MouseInput {
                button: MouseButton::Right,
                pressed: b,
            })),
        (action_for(event) == LoopAction::Nothing) == (event == WindowEvent::Other || (event matches WindowEvent::MouseInput {
            button,
            ..
        } && button != MouseButton::Left && button != MouseButton::Right)),
{
}

/// What the loop does for an event (see `action_for`).
pub fn event_action(event: WindowEvent) -> (r: LoopAction)
    ensures
        r == action_for(event),
        (r == LoopAction::Exit) == (event == WindowEvent::CloseRequested),
        (r == LoopAction::ForwardKeyboard) == (event == WindowEvent::KeyboardInput),
        (r == LoopAction::ForwardScroll) == (event == WindowEvent::MouseWheel),
        (r == LoopAction::ForwardMouseMotion) == (event == WindowEvent::MouseMotion),
        (r == LoopAction::WarnScaleFactor) == (event == WindowEvent::ScaleFactorChanged),
        (r == LoopAction::Redraw) == (event == WindowEvent::RedrawRequested),
        (r == LoopAction::RequestRedraw) == (event == WindowEvent::AboutToWait),
        forall|w: u32, h: u32|
            (r == (LoopAction::Resize { width: w, height: h })) == (event == (WindowEvent::Resized {
                width: w,
                height: h,
            })),
        forall|b: bool|
            (r == LoopAction::SetMouseLeft(b)) == (event == (WindowEvent::MouseInput {
                button: MouseButton::Left,
                pressed: b,
            })),
        forall|b: bool|
            (r == LoopAction::SetMouseRight(b)) == (event == (WindowEvent::MouseInput {
                button: MouseButton::Right,
                pressed: b,
            })),
        (r == LoopAction::Nothing) == (event == WindowEvent::Other || (event matches WindowEvent::MouseInput {
            button,
            ..
        } && button != MouseButton::Left && button != MouseButton::Right)),
{
    match event {
        WindowEvent::Resized { width, height } => LoopAction::Resize { width, height },
        WindowEvent::CloseRequested => LoopAction::Exit,
        WindowEvent::MouseInput { button, pressed } => match button {
            MouseButton::Left => LoopAction::SetMouseLeft(pressed),
            MouseButton::Right => LoopAction::SetMouseRight(pressed),
            _ => LoopAction::Nothing,
        },
        WindowEvent::KeyboardInput => LoopAction::ForwardKeyboard,
        WindowEvent::MouseWheel => LoopAction::ForwardScroll,
        WindowEvent::MouseMotion => LoopAction::ForwardMouseMotion,
        WindowEvent::ScaleFactorChanged => LoopAction::WarnScaleFactor,
        WindowEvent::RedrawRequested => LoopAction::Redraw,
        WindowEvent::AboutToWait => LoopAction::RequestRedraw,
        WindowEvent::Other => LoopAction::Nothing,
    }
}

/// Records a mouse button action in the input state; any other action
/// leaves it as it was.
pub fn apply_mouse_action(input: &mut Input, action: LoopAction)
    ensures
        match action {
            LoopAction::SetMouseLeft(b) => *final(input) == input_changed(*old(input), InputChange::MouseLeft(b)),
            LoopAction::SetMouseRight(b) => *final(input) == input_changed(*old(input), InputChange::MouseRight(b)),
            _ => *final(input) == *old(input),
        },
{
    match action {
        LoopAction::SetMouseLeft(b) => set_mouse_left_pressed(input, b),
        LoopAction::SetMouseRight(b) => set_mouse_right_pressed(input, b),
        _ => {},
    }
}

/// What a redraw does.
#[derive(Clone, Copy, PartialEq, Eq, Structural)]
pub enum FrameAction {
    /// The window is too small to draw into: skip the frame.
    Skip,
    /// Update the application, queue its drawing, then render.
    UpdateAndRender,
    /// Render what is queued.
    Render,
}

/// The least width and height drawn into: the bloom filter's mip chain has
/// five levels, 2^5 = 32.
pub const MIN_FRAME_SIZE: u32 = 32;

/// The milliseconds that must pass between two updates.
pub const UPDATE_INTERVAL_MS: u128 = 16;

/// Decides a redraw of a window of `width` by `height` pixels at time
/// `now_ms`, the last update having been at `last_update_ms`: a window
/// narrower or lower than 32 pixels is skipped; otherwise the application is
/// updated when more than 16 ms have passed since the last update, and the
/// frame is rendered either way. The clock must not have gone back.
pub fn redraw_step(width: u32, height: u32, now_ms: u128, last_update_ms: u128) -> (r: FrameAction)
    requires
        last_update_ms <= now_ms,
    ensures
        (width < 32 || height < 32) <==> r == FrameAction::Skip,
        !(width < 32 || height < 32) ==> (r == FrameAction::UpdateAndRender <==> now_ms - last_update_ms > 16),
        !(width < 32 || height < 32) ==> (r == FrameAction::Render <==> now_ms - last_update_ms <= 16),
{
    if width < MIN_FRAME_SIZE || height < MIN_FRAME_SIZE {
        FrameAction::Skip
    } else if now_ms - last_update_ms > UPDATE_INTERVAL_MS {
        FrameAction::UpdateAndRender
    } else {
        FrameAction::Render
    }
}

/// Why rendering to the surface failed.
#[derive(Clone, Copy, PartialEq, Eq, Structural)]
pub enum SurfaceErrorKind {
    Lost,
    Outdated,
    OutOfMemory,
    Timeout,
}

/// What the loop does when rendering to the surface fails.
#[derive(Clone, Copy, PartialEq, Eq, Structural)]
pub enum SurfaceAction {
    /// Reconfigure the surface at the window's size.
    Resize,
    /// Report that the system is out of memory.
    ReportOutOfMemory,
    /// Warn of the timeout and go on.
    WarnTimeout,
}

/// A lost or outdated surface is reconfigured, running out of memory is
/// reported, and a timeout is warned of.
pub fn on_surface_error(e: SurfaceErrorKind) -> (r: SurfaceAction)
    ensures
        (e == SurfaceErrorKind::Lost || e == SurfaceErrorKind::Outdated) <==> r == SurfaceAction::Resize,
        e == SurfaceErrorKind::OutOfMemory <==> r == SurfaceAction::ReportOutOfMemory,
        e == SurfaceErrorKind::Timeout <==> r == SurfaceAction::WarnTimeout,
{
    match e {
        SurfaceErrorKind::Lost | SurfaceErrorKind::Outdated => SurfaceAction::Resize,
        SurfaceErrorKind::OutOfMemory => SurfaceAction::ReportOutOfMemory,
        SurfaceErrorKind::Timeout => SurfaceAction::WarnTimeout,
    }
}

} // verus!
