use zero_kelvin::freeze::{generate_freeze_script, unshare_args, FreezeOptions, ProgressMode};
use zero_kelvin::manifest::{EntryType, FileEntry, Manifest, Metadata, PrivilegeMode};
use zero_kelvin::quote::shell_quote;

fn options(output: &str) -> FreezeOptions {
    FreezeOptions {
        encrypt: false,
        output: output.to_string(),
        overwrite_files: false,
        overwrite_luks_content: false,
        progress_mode: ProgressMode::NoProgress,
        compression: None,
        dereference: false,
    }
}

#[test]
fn test_generate_freeze_script() {
    let build_dir = "/tmp/zk-test/build";
    let output = "/tmp/zk-test/out.sqfs";

    let manifest = Manifest {
        metadata: Metadata::new("test-host".into(), PrivilegeMode::User, "today".into()),
        files: vec![FileEntry {
            id: 1,
            entry_type: EntryType::File,
            name: Some("file1".into()),
            restore_path: Some("/src/dir1".into()),
            original_path: None,
        }],
    };

    let payload_name = "test_payload";
    let script = generate_freeze_script(&manifest, build_dir, payload_name, &options(output)).unwrap();

    assert!(script.contains("mount --bind '/src/dir1/file1'"));
    assert!(script.contains("to_restore/1/file1'"));
    assert!(script.contains("0k-core create"));
    assert!(script.contains("build/test_payload'"));
    assert!(script.contains("--no-progress"));
}

#[test]
fn test_shell_quote() {
    assert_eq!(shell_quote("hello"), "'hello'");
    assert_eq!(shell_quote("it's"), "'it'\\''s'");
    assert_eq!(shell_quote("$(rm -rf /)"), "'$(rm -rf /)'");
    assert_eq!(shell_quote("`malicious`"), "'`malicious`'");
    assert_eq!(shell_quote("path with $VAR"), "'path with $VAR'");
    assert_eq!(shell_quote("back\\slash"), "'back\\slash'");
}

#[test]
fn test_generate_freeze_script_injection_safe() {
    let build_dir = "/tmp/zk-test/build";

    let manifest = Manifest {
        metadata: Metadata::new("test-host".into(), PrivilegeMode::User, "today".into()),
        files: vec![FileEntry {
            id: 1,
            entry_type: EntryType::Directory,
            name: Some("$(whoami)".into()),
            restore_path: Some("/tmp/`id`".into()),
            original_path: None,
        }],
    };

    let script = generate_freeze_script(&manifest, build_dir, "payload", &options("/tmp/out $HOME.sqfs")).unwrap();
    assert!(script.contains("'/tmp/`id`/$(whoami)'"));
    assert!(script.contains("'/tmp/out $HOME.sqfs'"));
    assert!(!script.contains("\"$("));
    assert!(!script.contains("\"`"));
}

#[test]
fn test_freeze_execution_flow() {
    // A full freeze needs real paths and a mount namespace; the script and
    // the namespace strategy are checked on their own here.
    let args = unshare_args(false, false, "/tmp/b/freeze.sh").unwrap();
    assert_eq!(args, vec!["-m", "-U", "-r", "--propagation", "private", "sh", "/tmp/b/freeze.sh"]);
}

#[test]
fn script_exact_text() {
    let manifest = Manifest {
        metadata: Metadata::new("h".into(), PrivilegeMode::Root, "d".into()),
        files: vec![
            FileEntry {
                id: 1,
                entry_type: EntryType::File,
                name: Some("a.txt".into()),
                restore_path: Some("/src".into()),
                original_path: None,
            },
            FileEntry {
                id: 2,
                entry_type: EntryType::Symlink,
                name: Some("link".into()),
                restore_path: Some("/src".into()),
                original_path: None,
            },
        ],
    };
    let mut o = options("/out/a.sqfs");
    o.encrypt = true;
    o.overwrite_files = true;
    o.compression = Some(3);
    o.progress_mode = ProgressMode::Alfa;
    let script = generate_freeze_script(&manifest, "/b", "payload", &o).unwrap();
    assert_eq!(
        script,
        "#!/bin/sh\nset -e\nmount --bind '/src/a.txt' '/b/payload/to_restore/1/a.txt'\n0k-core create --encrypt --alfa-progress  --overwrite-files --compression 3  '/b/payload' '/out/a.sqfs'\n"
    );
}

#[test]
fn shell_quote_round_trip_examples() {
    assert_eq!(shell_quote(""), "''");
    assert_eq!(shell_quote("''"), "''\\'''\\'''");
    assert_eq!(shell_quote("a b\tc\n"), "'a b\tc\n'");
}

#[test]
fn unshare_strategy_table() {
    assert_eq!(unshare_args(true, true, "s").unwrap(), vec!["-m", "--propagation", "private", "sh", "s"]);
    assert_eq!(unshare_args(false, true, "s").unwrap(), vec!["-m", "--propagation", "private", "sh", "s"]);
    assert!(unshare_args(true, false, "s").is_err());
}
