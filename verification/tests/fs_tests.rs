use dream::fs::{get_fs_root, get_full_path, set_fs_root, FileKind, FsRoot, ReadDir};

#[test]
fn read_dir_entry_getters() {
    let d = ReadDir::new("models".to_string(), "proj/models".to_string(), FileKind::DIRECTORY);
    assert_eq!(d.get_name(), "models");
    assert_eq!(d.get_path(), "proj/models");
    assert!(d.is_dir());
    let f = ReadDir::new("a.png".to_string(), "proj/a.png".to_string(), FileKind::FILE);
    assert!(!f.is_dir());
}

#[test]
fn full_path_without_root_is_unchanged() {
    let fs = FsRoot::new();
    assert_eq!(get_full_path(&fs, "cube.glb".to_string()), "cube.glb");
}

#[test]
fn full_path_joins_root() {
    let mut fs = FsRoot::new();
    set_fs_root(&mut fs, "examples/blank");
    assert_eq!(get_fs_root(&fs), "examples/blank");
    let expected = std::path::Path::new("examples/blank").join("models/cube.glb");
    assert_eq!(get_full_path(&fs, "models/cube.glb".to_string()), expected.to_str().unwrap());
    set_fs_root(&mut fs, "other");
    assert_eq!(get_fs_root(&fs), "other");
}

#[test]
fn full_path_absolute_replaces_root() {
    let mut fs = FsRoot::new();
    set_fs_root(&mut fs, "examples/blank");
    let absolute = "/abs/c.png".to_string();
    assert!(std::path::Path::new(&absolute).is_absolute());
    assert_eq!(get_full_path(&fs, absolute.clone()), absolute);
}
