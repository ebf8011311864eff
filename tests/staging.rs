use zero_kelvin::manifest::EntryType;
use zero_kelvin::staging::{
    build_dir_name, cache_root_path, check_cache_root, fresh_build_dir_name, is_build_dir_name, staged_type,
    staging_entries, CacheRootAction, ExistingDir, Target,
};

#[test]
fn cache_root_location() {
    assert_eq!(cache_root_path(None, 1000), "/tmp/0k-cache-1000");
    assert_eq!(cache_root_path(Some("/var/tmp"), 0), "/var/tmp/0k-cache-0");
}

#[test]
fn cache_root_refuses_symlink_and_foreign_owner() {
    let ok = ExistingDir { is_symlink: false, is_dir: true, owner_uid: 1000, mode: 0o40700 };
    assert_eq!(check_cache_root("/tmp/0k-cache-1000", Some(ok), 1000).unwrap(), CacheRootAction::Keep);
    let loose = ExistingDir { mode: 0o40755, ..ok };
    assert_eq!(check_cache_root("/tmp/0k-cache-1000", Some(loose), 1000).unwrap(), CacheRootAction::Restrict);
    let link = ExistingDir { is_symlink: true, ..ok };
    assert!(check_cache_root("/tmp/0k-cache-1000", Some(link), 1000).is_err());
    let foreign = ExistingDir { owner_uid: 0, ..ok };
    assert!(check_cache_root("/tmp/0k-cache-1000", Some(foreign), 1000).is_err());
    let file = ExistingDir { is_dir: false, ..ok };
    assert!(check_cache_root("/tmp/0k-cache-1000", Some(file), 1000).is_err());
    assert_eq!(check_cache_root("/tmp/0k-cache-1000", None, 1000).unwrap(), CacheRootAction::Restrict);
}

#[test]
fn build_directories() {
    assert_eq!(build_dir_name(1700000000, 42), "build_1700000000_42");
    assert!(fresh_build_dir_name(5).starts_with("build_5_"));
    assert!(is_build_dir_name("build_1_2"));
    assert!(!is_build_dir_name("payload"));
}

#[test]
fn symlink_targets_stay_links_unless_dereferenced() {
    assert_eq!(staged_type(true, false, false, false), EntryType::Symlink);
    assert_eq!(staged_type(true, false, false, true), EntryType::File);
    assert_eq!(staged_type(true, false, true, true), EntryType::Directory);
    assert_eq!(staged_type(false, true, true, false), EntryType::Directory);
    assert_eq!(staged_type(false, false, false, false), EntryType::File);
}

#[test]
fn test_prepare_staging() {
    let targets = vec![
        Target { path: "/tmp/t/data.txt".into(), entry_type: EntryType::File },
        Target { path: "/tmp/t/config".into(), entry_type: EntryType::Directory },
    ];
    let entries = staging_entries(&targets).unwrap();
    assert_eq!(entries.len(), 2);
    assert_eq!(entries[0].id, 1);
    assert_eq!(entries[0].name.as_deref(), Some("data.txt"));
    assert_eq!(entries[0].restore_path.as_deref(), Some("/tmp/t"));
    assert_eq!(entries[1].id, 2);
    assert_eq!(entries[1].name.as_deref(), Some("config"));
    assert_eq!(entries[1].entry_type, EntryType::Directory);
}

#[test]
fn staging_ignores_target_order() {
    let a = Target { path: "/x/a".into(), entry_type: EntryType::File };
    let b = Target { path: "/y/b".into(), entry_type: EntryType::Symlink };
    let ab = staging_entries(&vec![a.clone(), b.clone()]).unwrap();
    let ba = staging_entries(&vec![b, a]).unwrap();
    let key = |e: &zero_kelvin::manifest::FileEntry| (e.entry_type, e.name.clone(), e.restore_path.clone());
    let mut k1: Vec<_> = ab.iter().map(key).collect();
    let mut k2: Vec<_> = ba.iter().map(key).collect();
    k1.sort_by(|x, y| x.1.cmp(&y.1));
    k2.sort_by(|x, y| x.1.cmp(&y.1));
    assert_eq!(k1, k2);
    assert_eq!(ba[0].id, 1);
    assert_eq!(ba[0].name.as_deref(), Some("b"));
}

#[test]
fn staging_refuses_bad_targets() {
    assert!(staging_entries(&vec![Target { path: "rel".into(), entry_type: EntryType::File }]).is_err());
    assert!(staging_entries(&vec![Target { path: "/a/../b".into(), entry_type: EntryType::File }]).is_err());
    assert!(staging_entries(&vec![Target { path: "/dir with $(whoami)/and `id`".into(), entry_type: EntryType::Directory }]).is_ok());
}
