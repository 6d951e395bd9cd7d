use dream::legacy_scene::{Hierarchy, Scene};

#[test]
/// Test adding and removing entities and verifying the hierarchy is correct
fn test_hierarchy_empty() {
    let scene = Scene::new();
    assert_eq!(scene.root_entity_runtime_id, None);
}

#[test]
/// Test adding and removing entities and verifying the hierarchy is correct
fn test_hierarchy_one_level() {
    let mut scene = Scene::new();
    let root_entity = scene.create_entity();
    let root_entity_child_1 = scene.create_entity();
    let root_entity_child_2 = scene.create_entity();
    let root_entity_child_3 = scene.create_entity();
    // check scene is referring to root entity as the root entity
    assert_eq!(
        scene.root_entity_runtime_id.unwrap(),
        root_entity.get_runtime_id()
    );
    // check hierarchy for root entity
    assert_eq!(
        scene.get_hierarchy(root_entity.handle).unwrap(),
        Hierarchy {
            num_children: 3,
            parent_runtime_id: 0,
            first_child_runtime_id: root_entity_child_1.handle,
            prev_sibling_runtime_id: 0,
            next_sibling_runtime_id: 0,
        }
    );
    // check hierarchy for root_entity_child_1
    assert_eq!(
        scene.get_hierarchy(root_entity_child_1.handle).unwrap(),
        Hierarchy {
            num_children: 0,
            parent_runtime_id: root_entity.handle,
            first_child_runtime_id: 0,
            prev_sibling_runtime_id: 0,
            next_sibling_runtime_id: root_entity_child_2.handle,
        }
    );
    // check hierarchy for root_entity_child_2
    assert_eq!(
        scene.get_hierarchy(root_entity_child_2.handle).unwrap(),
        Hierarchy {
            num_children: 0,
            parent_runtime_id: root_entity.handle,
            first_child_runtime_id: 0,
            prev_sibling_runtime_id: root_entity_child_1.handle,
            next_sibling_runtime_id: root_entity_child_3.handle,
        }
    );
    // check hierarchy for root_entity_child_3
    assert_eq!(
        scene.get_hierarchy(root_entity_child_3.handle).unwrap(),
        Hierarchy {
            num_children: 0,
            parent_runtime_id: root_entity.handle,
            first_child_runtime_id: 0,
            prev_sibling_runtime_id: root_entity_child_2.handle,
            next_sibling_runtime_id: 0,
        }
    );
}

#[test]
/// Test adding and removing entities and verifying the hierarchy is correct
fn test_hierarchy_three_levels() {
    let mut scene = Scene::new();
    let level_0 = scene.create_entity();
    let level_1_a = scene.create_entity_with_parent(level_0.handle);
    let level_2_a = scene.create_entity_with_parent(level_1_a.handle);
    let level_2_b = scene.create_entity_with_parent(level_1_a.handle);
    let level_2_c = scene.create_entity_with_parent(level_1_a.handle);
    let level_1_b = scene.create_entity_with_parent(level_0.handle);
    let level_2_d = scene.create_entity_with_parent(level_1_b.handle);
    // check scene is referring to root entity as the root entity
    assert_eq!(
        scene.root_entity_runtime_id.unwrap(),
        level_0.get_runtime_id()
    );
    // check hierarchy for root entity
    assert_eq!(
        scene.get_hierarchy(level_0.handle).unwrap(),
        Hierarchy {
            num_children: 2,
            parent_runtime_id: 0,
            first_child_runtime_id: level_1_a.handle,
            prev_sibling_runtime_id: 0,
            next_sibling_runtime_id: 0,
        }
    );
    // check hierarchy for level_1_a entity
    assert_eq!(
        scene.get_hierarchy(level_1_a.handle).unwrap(),
        Hierarchy {
            num_children: 3,
            parent_runtime_id: level_0.handle,
            first_child_runtime_id: level_2_a.handle,
            prev_sibling_runtime_id: 0,
            next_sibling_runtime_id: level_1_b.handle,
        }
    );
    // check hierarchy for level_1_b entity
    assert_eq!(
        scene.get_hierarchy(level_1_b.handle).unwrap(),
        Hierarchy {
            num_children: 1,
            parent_runtime_id: level_0.handle,
            first_child_runtime_id: level_2_d.handle,
            prev_sibling_runtime_id: level_1_a.handle,
            next_sibling_runtime_id: 0,
        }
    );
    // check hierarchy for level_2_a entity
    assert_eq!(
        scene.get_hierarchy(level_2_a.handle).unwrap(),
        Hierarchy {
            num_children: 0,
            parent_runtime_id: level_1_a.handle,
            first_child_runtime_id: 0,
            prev_sibling_runtime_id: 0,
            next_sibling_runtime_id: level_2_b.handle,
        }
    );
    // check hierarchy for level_2_b entity
    assert_eq!(
        scene.get_hierarchy(level_2_b.handle).unwrap(),
        Hierarchy {
            num_children: 0,
            parent_runtime_id: level_1_a.handle,
            first_child_runtime_id: 0,
            prev_sibling_runtime_id: level_2_a.handle,
            next_sibling_runtime_id: level_2_c.handle,
        }
    );
    // check hierarchy for level_2_c entity
    assert_eq!(
        scene.get_hierarchy(level_2_c.handle).unwrap(),
        Hierarchy {
            num_children: 0,
            parent_runtime_id: level_1_a.handle,
            first_child_runtime_id: 0,
            prev_sibling_runtime_id: level_2_b.handle,
            next_sibling_runtime_id: 0,
        }
    );
    // check hierarchy for level_2_d entity
    assert_eq!(
        scene.get_hierarchy(level_2_d.handle).unwrap(),
        Hierarchy {
            num_children: 0,
            parent_runtime_id: level_1_b.handle,
            first_child_runtime_id: 0,
            prev_sibling_runtime_id: 0,
            next_sibling_runtime_id: 0,
        }
    );
}

#[test]
fn legacy_new_hierarchy_is_all_zero() {
    let h = Hierarchy::new();
    assert_eq!(
        h,
        Hierarchy {
            parent_runtime_id: 0,
            num_children: 0,
            first_child_runtime_id: 0,
            prev_sibling_runtime_id: 0,
            next_sibling_runtime_id: 0,
        }
    );
}

#[test]
fn legacy_runtime_ids_are_distinct_and_nonzero() {
    let mut scene = Scene::new();
    let a = scene.create_entity();
    let b = scene.create_entity();
    let c = scene.create_entity_with_parent(b.handle);
    assert!(a.handle != 0 && b.handle != 0 && c.handle != 0);
    assert!(a.handle != b.handle && b.handle != c.handle && a.handle != c.handle);
    assert_eq!(scene.transform_entities(), vec![a.handle, b.handle, c.handle]);
    assert_eq!(scene.get_hierarchy(12345), None);
}
