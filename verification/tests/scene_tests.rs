use dream::component::{Hierarchy, MeshRenderer, PythonScript, Tag};
use dream::resource::{ResourceHandle, ResourceManager};
use dream::scene::Scene;

fn detached() -> Hierarchy {
    Hierarchy {
        num_children: 0,
        parent_runtime_id: None,
        first_child_runtime_id: None,
        prev_sibling_runtime_id: None,
        next_sibling_runtime_id: None,
    }
}

#[test]
fn new_scene_is_empty() {
    let scene = Scene::create();
    assert_eq!(scene.name, "scene");
    assert_eq!(scene.root_entity_runtime_id, None);
    assert!(scene.get_entities_with_component().is_empty());
}

#[test]
fn first_entity_creates_root() {
    let mut scene = Scene::create();
    let e = scene.create_entity(Some("Cube".to_string()), None);
    let root = scene.root_entity_runtime_id.unwrap();
    assert_ne!(root, e);
    assert_eq!(scene.get_tag(root).unwrap().name, "Root");
    assert_eq!(scene.get_tag(e).unwrap().name, "Cube");
    assert_eq!(scene.get_children_for_entity(root), vec![e]);
    assert_eq!(scene.get_entities_with_component(), vec![root, e]);
    assert_eq!(
        scene.get_hierarchy(e).unwrap(),
        Hierarchy { parent_runtime_id: Some(root), ..detached() }
    );
    assert_eq!(
        scene.get_hierarchy(root).unwrap(),
        Hierarchy { num_children: 1, first_child_runtime_id: Some(e), ..detached() }
    );
}

#[test]
fn unnamed_entity_is_called_entity() {
    let mut scene = Scene::create();
    let e = scene.create_entity(None, None);
    assert_eq!(scene.get_tag(e).unwrap().name, "Entity");
}

#[test]
fn new_children_go_in_front() {
    let mut scene = Scene::create();
    let a = scene.create_entity(None, None);
    let b = scene.create_entity(None, None);
    let c = scene.create_entity(None, None);
    let root = scene.root_entity_runtime_id.unwrap();
    assert_eq!(scene.get_children_for_entity(root), vec![c, b, a]);
    assert_eq!(
        scene.get_hierarchy(root).unwrap(),
        Hierarchy { num_children: 3, first_child_runtime_id: Some(c), ..detached() }
    );
    assert_eq!(
        scene.get_hierarchy(c).unwrap(),
        Hierarchy { parent_runtime_id: Some(root), next_sibling_runtime_id: Some(b), ..detached() }
    );
    assert_eq!(
        scene.get_hierarchy(b).unwrap(),
        Hierarchy {
            parent_runtime_id: Some(root),
            prev_sibling_runtime_id: Some(c),
            next_sibling_runtime_id: Some(a),
            ..detached()
        }
    );
    assert_eq!(
        scene.get_hierarchy(a).unwrap(),
        Hierarchy { parent_runtime_id: Some(root), prev_sibling_runtime_id: Some(b), ..detached() }
    );
}

#[test]
fn entities_nest_under_given_parent() {
    let mut scene = Scene::create();
    let parent = scene.create_entity(Some("Parent".to_string()), None);
    let child = scene.create_entity(Some("Child".to_string()), Some(parent));
    let grandchild = scene.create_entity(None, Some(child));
    let root = scene.root_entity_runtime_id.unwrap();
    assert_eq!(scene.get_children_for_entity(root), vec![parent]);
    assert_eq!(scene.get_children_for_entity(parent), vec![child]);
    assert_eq!(scene.get_children_for_entity(child), vec![grandchild]);
    assert!(scene.get_children_for_entity(grandchild).is_empty());
}

#[test]
fn missing_parent_leaves_entity_detached() {
    let mut scene = Scene::create();
    let a = scene.create_entity(None, None);
    let stray = scene.create_entity(None, Some(987_654_321));
    assert_eq!(scene.get_hierarchy(stray).unwrap(), detached());
    let root = scene.root_entity_runtime_id.unwrap();
    assert_eq!(scene.get_children_for_entity(root), vec![a]);
    assert!(scene.get_children_for_entity(987_654_321).is_empty());
}

#[test]
fn add_child_with_unknown_entity_changes_nothing() {
    let mut scene = Scene::create();
    let a = scene.create_entity(None, None);
    let before = scene.get_hierarchy(a).unwrap();
    scene.add_child_to_entity(424_242, a);
    scene.add_child_to_entity(a, 424_242);
    assert_eq!(scene.get_hierarchy(a).unwrap(), before);
    assert!(scene.get_children_for_entity(a).is_empty());
}

#[test]
fn hierarchy_default_is_detached() {
    assert_eq!(Hierarchy::default(), detached());
}

fn manager_with(guid: &str, path: &str) -> ResourceManager {
    let mut rm = ResourceManager::new();
    rm.insert_resource(guid.to_string(), path.to_string());
    rm
}

#[test]
fn mesh_renderer_added_to_entity() {
    let mut scene = Scene::create();
    let e = scene.create_entity(None, None);
    let rm = manager_with("guid-1", "models/cube.glb");
    assert!(scene.get_mesh_renderer(e).is_none());
    MeshRenderer::add_to_entity(&mut scene, e, &rm, "guid-1".to_string(), Some(3));
    let m = scene.get_mesh_renderer(e).unwrap();
    assert_eq!(m.mesh_idx, Some(3));
    let h = m.resource_handle.as_ref().unwrap();
    assert_eq!(h.key, "guid-1");
    assert_eq!(h.path, "models/cube.glb");
}

#[test]
fn python_script_added_to_entity() {
    let mut scene = Scene::create();
    let e = scene.create_entity(None, None);
    let rm = manager_with("script-guid", "scripts/spin.py");
    PythonScript::add_to_entity(&mut scene, e, &rm, "script-guid".to_string());
    let s = scene.get_python_script(e).unwrap();
    assert_eq!(s.resource_handle.as_ref().unwrap().path, "scripts/spin.py");
}

#[test]
fn mesh_renderers_compare_by_resource_and_mesh() {
    let h = || Some(ResourceHandle::new("g".to_string(), "p".to_string()));
    let a = MeshRenderer::new(h(), Some(1));
    let b = MeshRenderer::new(h(), Some(1));
    let c = MeshRenderer::new(h(), Some(2));
    let d = MeshRenderer::new(None, Some(1));
    assert!(a == b);
    assert!(a != c);
    assert!(a != d);
    assert!(d != MeshRenderer::new(None, Some(1)));
}

#[test]
fn tag_and_components_keep_their_values() {
    assert_eq!(Tag::new("Light 1".to_string()).name, "Light 1");
    let s = PythonScript::new(None);
    assert!(s.resource_handle.is_none());
}

#[test]
fn root_getter_and_children_of_unknown_entity() {
    let mut scene = Scene::create();
    assert_eq!(scene.get_root_entity_runtime_id(), None);
    let e = scene.create_entity(Some("A".to_string()), None);
    let root = scene.get_root_entity_runtime_id().unwrap();
    assert_eq!(scene.root_entity_runtime_id, Some(root));
    assert_eq!(scene.get_children_for_entity(root), vec![e]);
    assert!(scene.get_children_for_entity(root + e + 1000).is_empty());
    let all = scene.get_entities_with_component();
    assert_eq!(all, vec![root, e]);
}

#[test]
fn components_read_back_and_removed() {
    let mut scene = Scene::create();
    let e = scene.create_entity(None, None);
    let other = scene.create_entity(None, None);
    let rm = manager_with("guid-1", "models/cube.glb");
    MeshRenderer::add_to_entity(&mut scene, e, &rm, "guid-1".to_string(), Some(2));
    MeshRenderer::add_to_entity(&mut scene, other, &rm, "guid-1".to_string(), Some(5));
    PythonScript::add_to_entity(&mut scene, e, &rm, "guid-1".to_string());
    assert_eq!(scene.get_mesh_renderer(e).unwrap().mesh_idx, Some(2));
    scene.remove_mesh_renderer(e);
    assert!(scene.get_mesh_renderer(e).is_none());
    assert_eq!(scene.get_mesh_renderer(other).unwrap().mesh_idx, Some(5));
    assert!(scene.get_python_script(e).is_some());
    scene.remove_python_script(e);
    assert!(scene.get_python_script(e).is_none());
    scene.remove_python_script(e);
    assert!(scene.get_python_script(e).is_none());
}

#[test]
fn handles_are_stored_under_their_own_guid() {
    let mut rm = manager_with("a", "a.png");
    rm.insert_resource("b".to_string(), "b.png".to_string());
    rm.insert_resource("a".to_string(), "a2.png".to_string());
    assert_eq!(rm.get_resource("a".to_string()).unwrap().key, "a");
    assert_eq!(rm.get_resource("a".to_string()).unwrap().path, "a2.png");
    assert_eq!(rm.copy_handle(&"b".to_string()).key, "b");
}

#[test]
fn entities_listed_by_component() {
    let mut scene = Scene::create();
    let a = scene.create_entity(None, None);
    let b = scene.create_entity(None, None);
    let c = scene.create_entity(None, None);
    let rm = manager_with("g", "m.glb");
    MeshRenderer::add_to_entity(&mut scene, c, &rm, "g".to_string(), None);
    MeshRenderer::add_to_entity(&mut scene, a, &rm, "g".to_string(), None);
    PythonScript::add_to_entity(&mut scene, b, &rm, "g".to_string());
    assert_eq!(scene.get_entities_with_mesh_renderer(), vec![a, c]);
    assert_eq!(scene.get_entities_with_python_script(), vec![b]);
    scene.remove_mesh_renderer(a);
    assert_eq!(scene.get_entities_with_mesh_renderer(), vec![c]);
}

#[test]
fn generic_component_round_trip() {
    let mut scene = Scene::create();
    let e = scene.create_entity(None, None);
    let h = || ResourceHandle::new("g".to_string(), "m.glb".to_string());
    assert!(!scene.has_component::<MeshRenderer>(e));
    scene.add_component(e, MeshRenderer::new(Some(h()), Some(4)));
    assert!(scene.has_component::<MeshRenderer>(e));
    assert!(!scene.has_component::<PythonScript>(e));
    assert_eq!(scene.get_component::<MeshRenderer>(e).unwrap().mesh_idx, Some(4));
    scene.add_component(e, PythonScript::new(Some(h())));
    scene.remove_component::<MeshRenderer>(e);
    assert!(scene.get_component::<MeshRenderer>(e).is_none());
    assert!(scene.get_component::<PythonScript>(e).is_some());
}

#[test]
fn mesh_renderers_compare_paths_as_paths() {
    let with_path = |p: &str| MeshRenderer::new(Some(ResourceHandle::new("g".to_string(), p.to_string())), Some(1));
    assert!(with_path("a/b") == with_path("a//b"));
    assert!(with_path("a/b") == with_path("a/b/"));
    assert!(with_path("a/b") == with_path("a/./b"));
    assert!(with_path("a/b") != with_path("a/c"));
}
