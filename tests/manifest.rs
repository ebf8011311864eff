use zero_kelvin::error::ZksError;
use zero_kelvin::manifest::{check_manifest_size, EntryType, FileEntry, Manifest, Metadata, PrivilegeMode};

fn entry(id: u32, name: Option<&str>, restore: Option<&str>, orig: Option<&str>) -> FileEntry {
    FileEntry {
        id,
        entry_type: EntryType::File,
        name: name.map(|s| s.to_string()),
        restore_path: restore.map(|s| s.to_string()),
        original_path: orig.map(|s| s.to_string()),
    }
}

#[test]
fn test_file_entry_validation() {
    let entry1 = entry(1, Some("valid.txt"), Some("/home/user"), None);
    assert!(entry1.validate().is_ok());

    let bad_name = entry(2, Some("../bad.txt"), Some("/home"), None);
    assert!(bad_name.validate().is_err());

    let dots_name = entry(10, Some("backup..2024.tar"), Some("/home/user"), None);
    assert!(dots_name.validate().is_ok(), "Names with consecutive dots should be valid");

    let dot_dot_name = entry(11, Some(".."), Some("/home/user"), None);
    assert!(dot_dot_name.validate().is_err(), "Name '..' should be rejected");

    let dot_name = entry(12, Some("."), Some("/home/user"), None);
    assert!(dot_name.validate().is_err(), "Name '.' should be rejected");

    let bad_path = entry(3, Some("ok.txt"), Some("/home/../etc"), None);
    assert!(bad_path.validate().is_err());
}

#[test]
fn test_manifest_validation() {
    let entry_ok = entry(1, Some("ok"), Some("/ok"), None);
    let manifest_ok = Manifest::new(
        Metadata::new("host".to_string(), PrivilegeMode::User, "now".to_string()),
        vec![entry_ok],
    );
    assert!(manifest_ok.validate().is_ok());

    let entry_bad = entry(2, Some("../bad"), Some("/ok"), None);
    let manifest_bad = Manifest::new(
        Metadata::new("host".to_string(), PrivilegeMode::User, "now".to_string()),
        vec![entry_bad],
    );
    assert!(manifest_bad.validate().is_err());
}

#[test]
fn validation_messages_name_id_and_reason() {
    let m = Manifest::new(
        Metadata::new("h".into(), PrivilegeMode::Root, "d".into()),
        vec![entry(1, Some("a"), Some("/x"), None), entry(7, Some("a/b"), Some("/x"), None)],
    );
    match m.validate() {
        Err(ZksError::ManifestError(msg)) => assert_eq!(
            msg,
            "Validation failed for file ID 7: Invalid name: 'a/b'. Names cannot be '.', '..', or contain '/' or null bytes."
        ),
        other => panic!("unexpected {:?}", other),
    }
}

#[test]
fn entry_invariants_each_rule() {
    assert!(entry(1, Some("a\0b"), Some("/x"), None).validate().is_err());
    assert!(entry(1, None, None, Some("/a/../b")).validate().is_err());
    assert!(entry(1, None, None, Some("/a/..b/c")).validate().is_ok());
    assert!(entry(1, None, None, None).validate().is_err());
    assert!(entry(1, Some("n"), None, None).validate().is_err());
    assert!(entry(1, None, None, Some("/tmp/T/legacy/x.txt")).validate().is_ok());
    assert!(entry(1, Some("n"), Some(".."), None).validate().is_err());
}

#[test]
fn entry_from_absolute_paths() {
    let e = FileEntry::from_path(1, "/tmp/T/src/a.txt", EntryType::File).unwrap();
    assert_eq!(e.id, 1);
    assert_eq!(e.entry_type, EntryType::File);
    assert_eq!(e.name.unwrap(), "a.txt");
    assert_eq!(e.restore_path.unwrap(), "/tmp/T/src");

    let d = FileEntry::from_path(2, "/tmp/T/my_dir/", EntryType::Directory).unwrap();
    assert_eq!(d.name.unwrap(), "my_dir");
    assert_eq!(d.restore_path.unwrap(), "/tmp/T");

    let top = FileEntry::from_path(3, "/etc", EntryType::Directory).unwrap();
    assert_eq!(top.restore_path.unwrap(), "/");

    assert!(FileEntry::from_path(4, "relative/x", EntryType::File).is_err());
    assert!(FileEntry::from_path(4, "/", EntryType::Directory).is_err());
    assert!(FileEntry::from_path(4, "/a/..", EntryType::Directory).is_err());
    assert!(FileEntry::from_path(4, "/a/../b", EntryType::File).is_err());
}

#[test]
fn manifest_size_cap() {
    assert!(check_manifest_size(10 * 1024 * 1024).is_ok());
    assert!(check_manifest_size(10 * 1024 * 1024 + 1).is_err());
}
