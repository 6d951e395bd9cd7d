use dream::editor::{EditorEvent, EditorEventType};
use dream::input::{
    is_mouse_left_pressed, is_mouse_right_pressed, is_renderer_panel_active, set_mouse_left_pressed,
    set_mouse_right_pressed, set_renderer_panel_active, Input,
};
use dream::renderer::{is_webgpu_enabled, AlphaBlendMode, CameraType, PathNotFoundError, PrimitiveInfo};
use dream::systems::{JavaScriptScriptComponentSystem, Person, PersonError};

#[test]
fn input_flags_are_independent() {
    let mut input = Input::new();
    assert!(!is_mouse_left_pressed(&input));
    assert!(!is_mouse_right_pressed(&input));
    assert!(!is_renderer_panel_active(&input));
    set_mouse_left_pressed(&mut input, true);
    assert!(is_mouse_left_pressed(&input));
    assert!(!is_mouse_right_pressed(&input));
    set_mouse_right_pressed(&mut input, true);
    set_renderer_panel_active(&mut input, true);
    set_mouse_left_pressed(&mut input, false);
    assert!(!is_mouse_left_pressed(&input));
    assert!(is_mouse_right_pressed(&input));
    assert!(is_renderer_panel_active(&input));
    set_renderer_panel_active(&mut input, false);
    assert!(!is_renderer_panel_active(&input));
}

#[test]
fn person_age_limits() {
    let p = Person::constructor("Ann".to_string(), 150).ok().unwrap();
    assert_eq!(p.say_hello(), "Hello 150-year-old Ann!");
    let q = Person::constructor("Bo".to_string(), 0).ok().unwrap();
    assert_eq!(q.say_hello(), "Hello 0-year-old Bo!");
    let r = Person::constructor("Cy".to_string(), 7).ok().unwrap();
    assert_eq!(r.say_hello(), "Hello 7-year-old Cy!");
    assert_eq!(Person::constructor("Old".to_string(), 151).err(), Some(PersonError::InvalidAge(151)));
    assert_eq!(Person::constructor("Big".to_string(), u32::MAX).err(), Some(PersonError::InvalidAge(u32::MAX)));
}

#[test]
fn renderer_small_types() {
    assert_eq!(PathNotFoundError.to_string(), "unable to find file at path");
    assert!(is_webgpu_enabled());
    assert!(CameraType::Perspective != CameraType::Orthographic);
    assert!(AlphaBlendMode::Mask != AlphaBlendMode::Blend);
    assert_eq!(PrimitiveInfo { num_vertices: 3 }.num_vertices, 3);
}

#[test]
fn editor_event_holds_data() {
    let e = EditorEvent { event_type: EditorEventType::ShowEntityInInspector, event_data: "42".to_string() };
    assert!(e.event_type == EditorEventType::ShowEntityInInspector);
    assert_eq!(e.event_data, "42");
    let _system = JavaScriptScriptComponentSystem::new();
}
