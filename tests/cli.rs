use zero_kelvin::targets::{expand_tilde, resolve_directory_output, resolve_freeze_args, validate_prefix};
use zero_kelvin::zk_cli::{Args, Commands};
use zero_kelvin::zks_cli;

#[test]
fn test_parse_freeze_args() {
    let args = Args::parse_from(&[
        "0k",
        "freeze",
        "/home/user/data",
        "/mnt/backup/data.sqfs",
        "/mnt/backup/data.sqfs",
        "-e",
        "--read",
        "/tmp/list.txt",
        "-c",
        "19",
    ]);

    match args.command {
        Commands::Freeze {
            args,
            encrypt,
            read,
            overwrite_files,
            overwrite_luks_content,
            no_progress,
            vanilla_progress,
            alfa_progress,
            compression,
            dereference,
            prefix,
        } => {
            assert_eq!(args[0], "/home/user/data");
            assert_eq!(args[1], "/mnt/backup/data.sqfs");
            assert!(encrypt);
            assert_eq!(read, Some("/tmp/list.txt".to_string()));
            assert!(!overwrite_files);
            assert!(!overwrite_luks_content);
            assert!(!no_progress);
            assert!(!vanilla_progress);
            assert!(!alfa_progress);
            assert_eq!(compression, Some(19));
            assert!(!dereference);
            assert_eq!(prefix, None);
        }
        _ => panic!("Expected Freeze command"),
    }
}

#[test]
fn test_parse_freeze_progress_flags() {
    let args = Args::parse_from(&["0k", "freeze", "target", "out.sqfs", "--vanilla-progress"]);
    if let Commands::Freeze { vanilla_progress, no_progress, alfa_progress, compression, .. } = args.command {
        assert!(vanilla_progress);
        assert!(!no_progress);
        assert!(!alfa_progress);
        assert_eq!(compression, None);
    } else {
        panic!("Wrong command");
    }

    let args = Args::parse_from(&["0k", "freeze", "target", "out.sqfs", "--no-progress"]);
    if let Commands::Freeze { vanilla_progress, no_progress, .. } = args.command {
        assert!(no_progress);
        assert!(!vanilla_progress);
    } else {
        panic!("Wrong command");
    }
}

#[test]
fn test_parse_check_args() {
    let args = Args::parse_from(&["0k", "check", "archive.sqfs", "--use-cmp", "--delete"]);
    match args.command {
        Commands::Check { archive_path, use_cmp, delete, force_delete } => {
            assert_eq!(archive_path, "archive.sqfs");
            assert!(use_cmp);
            assert!(delete);
            assert!(!force_delete);
        }
        _ => panic!("Expected Check command"),
    }
}

#[test]
fn test_parse_freeze_with_prefix() {
    let args = Args::parse_from(&["0k", "freeze", "target", "out_dir", "--prefix", "mybackup"]);
    if let Commands::Freeze { prefix, .. } = args.command {
        assert_eq!(prefix, Some("mybackup".to_string()));
    } else {
        panic!("Wrong command");
    }
}

#[test]
fn zk_rejects_malformed_lines() {
    assert!(Args::try_parse_from(&["0k"]).is_err());
    assert!(Args::try_parse_from(&["0k", "thaw", "x"]).is_err());
    assert!(Args::try_parse_from(&["0k", "freeze"]).is_err());
    assert!(Args::try_parse_from(&["0k", "freeze", "a", "b", "--bogus"]).is_err());
    assert!(Args::try_parse_from(&["0k", "freeze", "a", "b", "--no-progress", "--alfa-progress"]).is_err());
    assert!(Args::try_parse_from(&["0k", "freeze", "a", "b", "-c"]).is_err());
    assert!(Args::try_parse_from(&["0k", "freeze", "a", "b", "-c", "x1"]).is_err());
    assert!(Args::try_parse_from(&["0k", "check", "a.sqfs", "-D"]).is_err());
    assert!(Args::try_parse_from(&["0k", "check", "a.sqfs", "-D", "--delete"]).is_ok());
    assert!(Args::try_parse_from(&["0k", "unfreeze"]).is_err());
    assert!(Args::try_parse_from(&["0k", "unfreeze", "a", "b"]).is_err());
}

#[test]
fn zk_unfreeze_and_dashdash() {
    match Args::parse_from(&["0k", "unfreeze", "--skip-existing", "a.sqfs"]).command {
        Commands::Unfreeze { archive_path, overwrite, skip_existing } => {
            assert_eq!(archive_path, "a.sqfs");
            assert!(!overwrite);
            assert!(skip_existing);
        }
        _ => panic!("Expected Unfreeze command"),
    }
    match Args::parse_from(&["0k", "freeze", "-L", "--", "-odd", "out"]).command {
        Commands::Freeze { args, dereference, .. } => {
            assert_eq!(args, vec!["-odd".to_string(), "out".to_string()]);
            assert!(dereference);
        }
        _ => panic!("Expected Freeze command"),
    }
}

#[test]
fn zks_parse_freeze_args() {
    let args = zks_cli::ZksArgs::parse_from(&[
        "zks", "freeze", "/home/user/data", "/mnt/backup/data.sqfs", "/mnt/backup/data.sqfs", "-e", "--read",
        "/tmp/list.txt", "-c", "19",
    ]);
    match args.command {
        zks_cli::Commands::Freeze {
            args,
            encrypt,
            read,
            overwrite_files,
            overwrite_luks_content,
            no_progress,
            vanilla_progress,
            alfa_progress,
            compression,
        } => {
            assert_eq!(args[0], "/home/user/data");
            assert_eq!(args[1], "/mnt/backup/data.sqfs");
            assert!(encrypt);
            assert_eq!(read, Some("/tmp/list.txt".to_string()));
            assert!(!overwrite_files);
            assert!(!overwrite_luks_content);
            assert!(!no_progress);
            assert!(!vanilla_progress);
            assert!(!alfa_progress);
            assert_eq!(compression, Some(19));
        }
        _ => panic!("Expected Freeze command"),
    }
}

#[test]
fn zks_parse_freeze_progress_flags() {
    let args = zks_cli::ZksArgs::parse_from(&["zks", "freeze", "target", "out.sqfs", "--vanilla-progress"]);
    if let zks_cli::Commands::Freeze { vanilla_progress, no_progress, alfa_progress, compression, .. } = args.command {
        assert!(vanilla_progress);
        assert!(!no_progress);
        assert!(!alfa_progress);
        assert_eq!(compression, None);
    } else {
        panic!("Wrong command");
    }
    let args = zks_cli::ZksArgs::parse_from(&["zks", "freeze", "target", "out.sqfs", "--no-progress"]);
    if let zks_cli::Commands::Freeze { vanilla_progress, no_progress, .. } = args.command {
        assert!(no_progress);
        assert!(!vanilla_progress);
    } else {
        panic!("Wrong command");
    }
}

#[test]
fn zks_parse_check_args() {
    let args = zks_cli::ZksArgs::parse_from(&["zks", "check", "archive.sqfs", "--use-cmp", "--force-delete"]);
    match args.command {
        zks_cli::Commands::Check { archive_path, use_cmp, force_delete } => {
            assert_eq!(archive_path, "archive.sqfs");
            assert!(use_cmp);
            assert!(force_delete);
        }
        _ => panic!("Expected Check command"),
    }
    assert!(zks_cli::ZksArgs::try_parse_from(&["zks", "freeze", "a", "b", "--prefix", "p"]).is_err());
}

#[test]
fn test_resolve_freeze_args_basic() {
    let args = vec!["t1".to_string(), "t2".to_string(), "out.sqfs".to_string()];
    let (targets, out) = resolve_freeze_args(&args, None, None).unwrap();
    assert_eq!(targets, vec!["t1".to_string(), "t2".to_string()]);
    assert_eq!(out, "out.sqfs");
}

#[test]
fn test_resolve_freeze_args_with_file() {
    let list = "file_from_list\n # comment\nfile2_from_list\n";
    let args = vec!["cli_target".to_string(), "out.sqfs".to_string()];
    let (targets, out) = resolve_freeze_args(&args, Some(list), None).unwrap();
    assert_eq!(out, "out.sqfs");
    assert_eq!(targets.len(), 3);
    assert!(targets.contains(&"cli_target".to_string()));
    assert!(targets.contains(&"file_from_list".to_string()));
    assert!(targets.contains(&"file2_from_list".to_string()));
}

#[test]
fn test_resolve_freeze_args_no_output() {
    let args: Vec<String> = vec![];
    assert!(resolve_freeze_args(&args, None, None).is_err());
    assert!(resolve_freeze_args(&vec!["only_out".to_string()], None, None).is_err());
    let (t, _) = resolve_freeze_args(&vec!["out".to_string()], Some("  ~/docs  \n\n"), Some("/home/u")).unwrap();
    assert_eq!(t, vec!["/home/u/docs".to_string()]);
}

#[test]
fn test_expand_tilde_home() {
    assert_eq!(expand_tilde("~", Some("/root")), "/root");
}

#[test]
fn test_expand_tilde_path() {
    assert_eq!(expand_tilde("~/Documents/file.txt", Some("/root")), format!("{}/Documents/file.txt", "/root"));
}

#[test]
fn test_no_expand_absolute() {
    assert_eq!(expand_tilde("/tmp/file", Some("/root")), "/tmp/file");
}

#[test]
fn test_no_expand_relative() {
    assert_eq!(expand_tilde("Documents/file.txt", Some("/root")), "Documents/file.txt");
    assert_eq!(expand_tilde("~user/x", Some("/root")), "~user/x");
    assert_eq!(expand_tilde("~", None), "~");
}

#[test]
fn prefix_validation() {
    assert_eq!(validate_prefix("  mybackup \n").unwrap(), "mybackup");
    assert!(validate_prefix("   ").is_err());
    assert!(validate_prefix("a/b").is_err());
}

#[test]
fn test_resolve_directory_output_with_prefix() {
    let result = resolve_directory_output("/tmp/outdir", "myprefix", 1700000000, false);
    let (parent, filename) = result.rsplit_once('/').unwrap();
    assert!(filename.starts_with("myprefix_"));
    assert!(filename.ends_with(".sqfs"));
    assert_eq!(parent, "/tmp/outdir");
}

#[test]
fn test_resolve_directory_output_encrypted() {
    let result = resolve_directory_output("/tmp/outdir/", "secret", 1700000000, true);
    let filename = result.rsplit_once('/').unwrap().1;
    assert!(filename.starts_with("secret_"));
    assert!(filename.ends_with(".sqfs_luks.img"));
}
