use dream::input::{is_mouse_left_pressed, is_mouse_right_pressed, Input};
use dream::window_loop::{
    apply_mouse_action, event_action, on_surface_error, redraw_step, FrameAction, LoopAction, MouseButton,
    SurfaceAction, SurfaceErrorKind, WindowEvent,
};

#[test]
fn small_windows_skip_the_frame() {
    assert!(redraw_step(31, 100, 1000, 0) == FrameAction::Skip);
    assert!(redraw_step(100, 31, 1000, 0) == FrameAction::Skip);
    assert!(redraw_step(0, 0, 1000, 0) == FrameAction::Skip);
}

#[test]
fn update_only_after_sixteen_milliseconds() {
    assert!(redraw_step(32, 32, 117, 100) == FrameAction::UpdateAndRender);
    assert!(redraw_step(32, 32, 116, 100) == FrameAction::Render);
    assert!(redraw_step(3000, 1750, 100, 100) == FrameAction::Render);
}

#[test]
fn surface_errors() {
    assert!(on_surface_error(SurfaceErrorKind::Lost) == SurfaceAction::Resize);
    assert!(on_surface_error(SurfaceErrorKind::Outdated) == SurfaceAction::Resize);
    assert!(on_surface_error(SurfaceErrorKind::OutOfMemory) == SurfaceAction::ReportOutOfMemory);
    assert!(on_surface_error(SurfaceErrorKind::Timeout) == SurfaceAction::WarnTimeout);
}

#[test]
fn window_events_map_to_actions() {
    assert!(event_action(WindowEvent::CloseRequested) == LoopAction::Exit);
    assert!(event_action(WindowEvent::Resized { width: 10, height: 20 }) == LoopAction::Resize { width: 10, height: 20 });
    assert!(
        event_action(WindowEvent::MouseInput { button: MouseButton::Left, pressed: true }) == LoopAction::SetMouseLeft(true)
    );
    assert!(
        event_action(WindowEvent::MouseInput { button: MouseButton::Right, pressed: false })
            == LoopAction::SetMouseRight(false)
    );
    assert!(event_action(WindowEvent::MouseInput { button: MouseButton::Middle, pressed: true }) == LoopAction::Nothing);
    assert!(event_action(WindowEvent::RedrawRequested) == LoopAction::Redraw);
    assert!(event_action(WindowEvent::AboutToWait) == LoopAction::RequestRedraw);
    assert!(event_action(WindowEvent::KeyboardInput) == LoopAction::ForwardKeyboard);
    assert!(event_action(WindowEvent::ScaleFactorChanged) == LoopAction::WarnScaleFactor);
}

#[test]
fn mouse_flags_read_their_last_change() {
    let mut input = Input::new();
    apply_mouse_action(&mut input, event_action(WindowEvent::MouseInput { button: MouseButton::Left, pressed: true }));
    apply_mouse_action(&mut input, event_action(WindowEvent::MouseInput { button: MouseButton::Right, pressed: true }));
    apply_mouse_action(&mut input, event_action(WindowEvent::CloseRequested));
    assert!(is_mouse_left_pressed(&input));
    assert!(is_mouse_right_pressed(&input));
    apply_mouse_action(&mut input, LoopAction::SetMouseLeft(false));
    assert!(!is_mouse_left_pressed(&input));
    assert!(is_mouse_right_pressed(&input));
}
