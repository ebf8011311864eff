use zero_kelvin::elevation::{choose_root_cmd, first_superuser, 
    allowed_root_cmds, check_root_or_get_runner, ensure_read_permissions, get_effective_root_cmd, is_valid_cmd_name,
    root_cmd_from_env, validate_root_cmd_config, ConfigFileInfo, ReadProbe, RootCmdConfig,
};
use zero_kelvin::error::{is_permission_denied, IoFailure, IoKind, ZksError};

#[test]
fn command_names() {
    assert!(is_valid_cmd_name("sudo-rs"));
    assert!(is_valid_cmd_name("my_tool2"));
    assert!(!is_valid_cmd_name(""));
    assert!(!is_valid_cmd_name("sudo -S"));
    assert!(!is_valid_cmd_name("/bin/sudo"));
}

#[test]
fn root_cmd_from_environment() {
    let wl = allowed_root_cmds();
    assert_eq!(root_cmd_from_env("  doas -u root ", &wl).as_deref(), Some("doas"));
    assert_eq!(root_cmd_from_env("evil", &wl), None);
    assert_eq!(root_cmd_from_env("", &wl), None);
    assert!(get_effective_root_cmd(true, &None, Some("doas")).is_empty());
    assert_eq!(get_effective_root_cmd(false, &None, Some("doas")), vec!["doas".to_string()]);
    assert_eq!(get_effective_root_cmd(false, &None, None).len(), 1);
}

#[test]
fn config_file_rules() {
    let f = ConfigFileInfo { is_symlink: false, owner_uid: 1000, mode: 0o100600 };
    let c = RootCmdConfig { default: "doas".into(), allowed: vec!["sudo".into(), "doas".into()] };
    assert!(validate_root_cmd_config(f, 1000, c.clone()).is_some());
    assert!(validate_root_cmd_config(ConfigFileInfo { mode: 0o100644, ..f }, 1000, c.clone()).is_none());
    assert!(validate_root_cmd_config(ConfigFileInfo { is_symlink: true, ..f }, 1000, c.clone()).is_none());
    assert!(validate_root_cmd_config(f, 1001, c.clone()).is_none());
    let bad = RootCmdConfig { default: "pkexec".into(), allowed: vec!["sudo".into()] };
    assert!(validate_root_cmd_config(f, 1000, bad).is_none());
    let bad_name = RootCmdConfig { default: String::new(), allowed: vec!["su do".into()] };
    assert!(validate_root_cmd_config(f, 1000, bad_name).is_none());
    let cfg = Some(RootCmdConfig { default: String::new(), allowed: vec!["please".into()] });
    assert_eq!(get_effective_root_cmd(false, &cfg, Some("please")), vec!["please".to_string()]);
    assert_ne!(get_effective_root_cmd(false, &cfg, Some("sudo")), vec!["sudo-rs".to_string()]);
}

#[test]
fn runner_for_root_is_none() {
    assert_eq!(check_root_or_get_runner(true).unwrap(), None);
}

#[test]
fn read_permission_gate() {
    let paths = vec!["/a".to_string(), "/b".to_string()];
    assert!(ensure_read_permissions(&paths, &vec![ReadProbe::Readable, ReadProbe::Readable]).is_ok());
    let denied = ensure_read_permissions(&paths, &vec![ReadProbe::Readable, ReadProbe::Denied]).unwrap_err();
    assert!(is_permission_denied(&denied));
    match ensure_read_permissions(&paths, &vec![ReadProbe::Missing, ReadProbe::Denied]) {
        Err(ZksError::InvalidPath(p)) => assert_eq!(p, "/a"),
        other => panic!("unexpected {:?}", other),
    }
}

#[test]
fn error_hints() {
    let full = ZksError::IoError(IoFailure { kind: IoKind::Other, raw_os_error: Some(28), message: "No space".into() });
    assert_eq!(full.friendly_message().as_deref(), Some("Disk is full. Free space and try again."));
    let key = ZksError::LuksError("No Key Available With This Passphrase.".into());
    assert_eq!(key.friendly_message().as_deref(), Some("Incorrect passphrase."));
    assert_eq!(ZksError::OperationFailed("boom".into()).friendly_message(), None);
    assert_eq!(ZksError::StagingError("no key available with this passphrase".into()).friendly_message(), None);
    let denied = ZksError::IoError(IoFailure { kind: IoKind::PermissionDenied, raw_os_error: Some(13), message: "x".into() });
    assert!(is_permission_denied(&denied));
    assert!(is_permission_denied(&ZksError::OperationFailed("mount: Operation NOT permitted".into())));
    assert!(is_permission_denied(&ZksError::OperationFailed("Cannot initialize device-mapper".into())));
    assert!(!is_permission_denied(&ZksError::OperationFailed("disk exploded".into())));
    assert!(!is_permission_denied(&ZksError::LuksError("permission denied".into())));
    assert_eq!(ZksError::InvalidPath("/x".into()).message(), "Invalid path: /x");
}

#[test]
fn superuser_from_probe_results() {
    assert_eq!(first_superuser(&vec![false, true, true, false]).as_deref(), Some("doas"));
    assert_eq!(first_superuser(&vec![true, false, false, false]).as_deref(), Some("sudo"));
    assert_eq!(first_superuser(&vec![false, false, false, true]).as_deref(), Some("pkexec"));
    assert_eq!(first_superuser(&vec![false; 4]), None);
}

#[test]
fn root_cmd_choice_from_probe_results() {
    let six = vec![false, false, false, true, true, false];
    assert!(choose_root_cmd(true, &None, None, false, &six).is_empty());
    assert_eq!(choose_root_cmd(false, &None, None, false, &six), vec!["run0".to_string()]);
    assert_eq!(choose_root_cmd(false, &None, Some("pkexec -x"), false, &six), vec!["pkexec".to_string()]);
    assert_eq!(choose_root_cmd(false, &None, Some("evil"), false, &vec![false; 6]), vec!["sudo".to_string()]);
    let cfg = Some(RootCmdConfig { default: "doas".into(), allowed: vec!["sudo".into(), "doas".into()] });
    assert_eq!(choose_root_cmd(false, &cfg, None, true, &vec![true, true]), vec!["doas".to_string()]);
    assert_eq!(choose_root_cmd(false, &cfg, None, false, &vec![true, true]), vec!["sudo".to_string()]);
    assert_eq!(choose_root_cmd(false, &cfg, Some("run0"), false, &vec![false, false]), vec!["sudo".to_string()]);
}

#[test]
fn config_default_must_be_listed() {
    let f = ConfigFileInfo { is_symlink: false, owner_uid: 1000, mode: 0o100600 };
    let no_default = RootCmdConfig { default: String::new(), allowed: vec!["sudo".into()] };
    assert!(validate_root_cmd_config(f, 1000, no_default).is_none());
}

#[test]
fn refusals_invite_elevation() {
    let paths = vec!["/a".to_string()];
    match ensure_read_permissions(&paths, &vec![ReadProbe::Denied]) {
        Err(e @ ZksError::OperationFailed(_)) => {
            assert!(is_permission_denied(&e));
            assert_eq!(e.message(), "Operation failed: Insufficient read permissions for one or more freeze targets");
        }
        other => panic!("unexpected {:?}", other),
    }
    let e = zero_kelvin::freeze::unshare_args(true, false, "s").unwrap_err();
    assert!(is_permission_denied(&e));
    assert_eq!(e.message(), "Operation failed: Encrypted freeze (-e) must be run as root for LUKS.");
}
