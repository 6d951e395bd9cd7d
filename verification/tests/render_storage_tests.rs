use dream::render_storage::{RenderMapKey, RenderStorage};

#[test]
fn model_storage() {
    let mut storage: RenderStorage<&'static str, u32> = RenderStorage::new();
    assert!(!storage.is_model_stored("cube"));
    let guid = storage.store_model(Some("cube"), "cube model");
    assert_eq!(guid, "cube");
    assert!(storage.is_model_stored("cube"));
    assert!(!storage.is_model_stored("robot"));
}

#[test]
fn queue_and_clear() {
    let mut storage: RenderStorage<(), u32> = RenderStorage::new();
    storage.queue_for_drawing("cube", 0, 10);
    storage.queue_for_drawing("cube", 1, 20);
    storage.queue_for_drawing("cube", 0, 11);
    storage.queue_for_drawing("robot", 0, 30);
    assert_eq!(storage.get_instances("cube", 0), Some(&vec![10, 11]));
    assert_eq!(storage.get_instances("cube", 1), Some(&vec![20]));
    assert_eq!(storage.get_instances("robot", 0), Some(&vec![30]));
    assert_eq!(storage.get_instances("robot", 1), None);
    assert_eq!(storage.queued_meshes().len(), 3);
    storage.clear_render_map();
    assert_eq!(storage.get_instances("cube", 0), None);
    assert!(storage.queued_meshes().is_empty());
    storage.queue_for_drawing("cube", 0, 12);
    assert_eq!(storage.get_instances("cube", 0), Some(&vec![12]));
    assert!(!storage.is_model_stored("cube"));
}

#[test]
fn render_map_key_fields() {
    let k = RenderMapKey { model_guid: "cube".to_string(), mesh_index: 3 };
    assert_eq!(k.model_guid, "cube");
    assert_eq!(k.mesh_index, 3);
}

#[test]
fn clear_removes_models_and_instances() {
    let mut storage: RenderStorage<&'static str, u32> = RenderStorage::new();
    storage.store_model(Some("cube"), "cube model");
    storage.store_model(Some("robot"), "robot model");
    storage.queue_for_drawing("cube", 0, 10);
    storage.clear_render_map();
    assert!(storage.is_model_stored("cube"));
    storage.queue_for_drawing("cube", 0, 11);
    storage.clear();
    assert!(!storage.is_model_stored("cube"));
    assert!(!storage.is_model_stored("robot"));
    assert_eq!(storage.get_instances("cube", 0), None);
    assert!(storage.queued_meshes().is_empty());
}
