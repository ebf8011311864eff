use zero_kelvin::error::{IoFailure, IoKind, ZksError};
use zero_kelvin::freeze::UnfreezeOptions;
use zero_kelvin::manifest::{EntryType, FileEntry};
use zero_kelvin::restore::{
    ancestor_paths, archived_source_path, check_ancestor_probes, entry_destination, resolve_conflict, rsync_args,
    ConflictPlan, Probe,
};

fn new_entry() -> FileEntry {
    FileEntry {
        id: 1,
        entry_type: EntryType::File,
        name: Some("myfile.txt".into()),
        restore_path: Some("/tmp/dest".into()),
        original_path: None,
    }
}

#[test]
fn restore_plan_for_new_entry() {
    let e = new_entry();
    let (dest, parent) = entry_destination(&e).unwrap();
    assert_eq!(dest, "/tmp/dest/myfile.txt");
    assert_eq!(parent, "/tmp/dest");
    let src = archived_source_path("/mnt/m", &e, &dest);
    assert_eq!(src, "/mnt/m/to_restore/1/myfile.txt");
    let args = rsync_args(&src, &dest, EntryType::File, false, false);
    assert_eq!(args, vec!["-a", "--info=progress2", "/mnt/m/to_restore/1/myfile.txt", "/tmp/dest/myfile.txt"]);
}

#[test]
fn restore_plan_for_legacy_entry() {
    let e = FileEntry {
        id: 1,
        entry_type: EntryType::File,
        name: None,
        restore_path: None,
        original_path: Some("/tmp/T/legacy/legacy.txt".into()),
    };
    let (dest, parent) = entry_destination(&e).unwrap();
    assert_eq!(dest, "/tmp/T/legacy/legacy.txt");
    assert_eq!(parent, "/tmp/T/legacy");
    assert_eq!(archived_source_path("/mnt/m", &e, &dest), "/mnt/m/to_restore/1/legacy.txt");
}

#[test]
fn directory_copy_and_elevation_args() {
    let args = rsync_args("/m/to_restore/2/d", "/x/d", EntryType::Directory, true, false);
    assert_eq!(args, vec!["-a", "--info=progress2", "--ignore-existing", "/m/to_restore/2/d/", "/x/d"]);
    let args = rsync_args("/m/s", "/x/s", EntryType::File, true, true);
    assert_eq!(args, vec!["rsync", "-a", "--ignore-existing", "--info=progress2", "/m/s", "/x/s"]);
}

#[test]
fn missing_location_is_an_error() {
    let e = FileEntry { id: 4, entry_type: EntryType::File, name: None, restore_path: None, original_path: None };
    match entry_destination(&e) {
        Err(ZksError::OperationFailed(m)) => assert_eq!(m, "Invalid entry 4: missing path info"),
        other => panic!("unexpected {:?}", other),
    }
}

#[test]
fn symlink_redirect_defense() {
    let paths = ancestor_paths("/tmp/T/dest/docs/x");
    assert_eq!(paths, vec!["/", "/tmp", "/tmp/T", "/tmp/T/dest", "/tmp/T/dest/docs", "/tmp/T/dest/docs/x"]);
    let probes = vec![Probe::Present, Probe::Present, Probe::Present, Probe::Present, Probe::Symlink, Probe::Absent];
    assert!(check_ancestor_probes(&paths, &probes).is_err());
    let probes = vec![Probe::Present, Probe::Present, Probe::Absent, Probe::Symlink, Probe::Symlink, Probe::Symlink];
    assert!(check_ancestor_probes(&paths, &probes).is_ok());
    let probes = vec![Probe::Present; 6];
    assert!(check_ancestor_probes(&paths, &probes).is_ok());
    let fail = IoFailure { kind: IoKind::PermissionDenied, raw_os_error: Some(13), message: "denied".into() };
    let probes = vec![Probe::Present, Probe::Failed(fail), Probe::Absent, Probe::Absent, Probe::Absent, Probe::Absent];
    assert!(matches!(check_ancestor_probes(&paths, &probes), Err(ZksError::IoError(_))));
    assert_eq!(ancestor_paths("/a//./b/"), vec!["/", "/a", "/a/b"]);
}

#[test]
fn conflict_policy() {
    let skip = UnfreezeOptions { overwrite: false, skip_existing: true };
    let over = UnfreezeOptions { overwrite: true, skip_existing: false };
    let none = UnfreezeOptions { overwrite: false, skip_existing: false };
    assert_eq!(resolve_conflict("/d", false, false, none).unwrap(), ConflictPlan::Copy);
    assert_eq!(resolve_conflict("/d", true, true, skip).unwrap(), ConflictPlan::MergeKeepExisting);
    assert_eq!(resolve_conflict("/d", true, false, skip).unwrap(), ConflictPlan::Skip);
    assert_eq!(resolve_conflict("/d", true, false, over).unwrap(), ConflictPlan::Copy);
    match resolve_conflict("/d", true, false, none) {
        Err(ZksError::OperationFailed(m)) => assert_eq!(m, "File exists: /d. Use --overwrite to replace/merge."),
        other => panic!("unexpected {:?}", other),
    }
}
