use dream::fs::{FileKind, ReadDir};
use dream::resource::{is_resource_file_name, meta_file_path, EntryAction, MetaData, ResourceHandle, ResourceManager, ResourceScan};

#[test]
fn resource_file_names() {
    assert!(is_resource_file_name("cube.glb"));
    assert!(is_resource_file_name("scripts"));
    assert!(!is_resource_file_name("cube.glb.meta"));
    assert!(!is_resource_file_name(".meta"));
    assert!(!is_resource_file_name(".DS_Store"));
    assert!(!is_resource_file_name("files.json"));
    assert!(is_resource_file_name("files.json5"));
    assert!(is_resource_file_name("meta"));
    assert!(is_resource_file_name(""));
}

#[test]
fn meta_path_appends_suffix() {
    assert_eq!(meta_file_path("assets/cube.glb"), "assets/cube.glb.meta");
    assert_eq!(meta_file_path(""), ".meta");
}

#[test]
fn resource_handle_new_keeps_fields() {
    let h = ResourceHandle::new("k".to_string(), "p/q".to_string());
    assert_eq!(h.key, "k");
    assert_eq!(h.path, "p/q");
}

#[test]
fn manager_get_after_insert() {
    let mut rm = ResourceManager::new();
    assert!(rm.get_resource("a".to_string()).is_none());
    rm.insert_resource("a".to_string(), "one.png".to_string());
    rm.insert_resource("b".to_string(), "two.png".to_string());
    rm.insert_resource("a".to_string(), "three.png".to_string());
    let a = rm.get_resource("a".to_string()).unwrap();
    assert_eq!(a.key, "a");
    assert_eq!(a.path, "three.png");
    assert_eq!(rm.get_resource("b".to_string()).unwrap().path, "two.png");
    assert!(rm.get_resource("c".to_string()).is_none());
}

#[test]
fn meta_data_guid_is_v4_uuid_text() {
    let m = MetaData::default();
    let chars: Vec<char> = m.guid.chars().collect();
    assert_eq!(chars.len(), 36);
    for (i, c) in chars.iter().enumerate() {
        if i == 8 || i == 13 || i == 18 || i == 23 {
            assert_eq!(*c, '-');
        } else {
            assert!(c.is_ascii_hexdigit() && !c.is_ascii_uppercase());
        }
    }
    assert_eq!(chars[14], '4');
    assert_ne!(MetaData::default().guid, m.guid);
}

#[test]
fn scan_walks_directories_last_found_first() {
    let mut scan = ResourceScan::start("root".to_string());
    assert_eq!(scan.next_directory(), Some("root".to_string()));
    let entries = vec![
        ReadDir::new("models".to_string(), "root/models".to_string(), FileKind::DIRECTORY),
        ReadDir::new("cube.glb".to_string(), "root/cube.glb".to_string(), FileKind::FILE),
        ReadDir::new("cube.glb.meta".to_string(), "root/cube.glb.meta".to_string(), FileKind::FILE),
        ReadDir::new(".git".to_string(), "root/.git".to_string(), FileKind::DIRECTORY),
        ReadDir::new("files.json".to_string(), "root/files.json".to_string(), FileKind::FILE),
    ];
    let mut registered = Vec::new();
    for entry in &entries {
        match scan.visit_entry(entry) {
            EntryAction::Register { path, meta_path } => registered.push((path, meta_path)),
            EntryAction::Skip => {}
        }
    }
    assert_eq!(
        registered,
        vec![
            ("root/models".to_string(), "root/models.meta".to_string()),
            ("root/cube.glb".to_string(), "root/cube.glb.meta".to_string()),
        ]
    );
    scan.register("guid-cube".to_string(), "root/cube.glb".to_string());
    // directories come back most recent first, hidden ones included
    assert_eq!(scan.next_directory(), Some("root/.git".to_string()));
    assert_eq!(scan.next_directory(), Some("root/models".to_string()));
    assert_eq!(scan.next_directory(), None);
    let rm = scan.finish();
    assert_eq!(rm.get_resource("guid-cube".to_string()).unwrap().path, "root/cube.glb");
}
