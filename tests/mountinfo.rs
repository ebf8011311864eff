use zero_kelvin::mountinfo::unescape_mountinfo_octal;
use zero_kelvin::unmount::{first_mount_step, next_mount_step, unmount_method, MountStep, UnmountMethod, cmdline_args, deps_mention, fuse_mount_points, is_squashfuse, loop_device_of, sq_mapper_mount};

fn unescape_mountinfo(s: &str) -> String {
    unescape_mountinfo_octal(s)
}

#[test]
fn test_unescape_mountinfo_plain() {
    assert_eq!(unescape_mountinfo("/tmp/0k-cache-1000"), "/tmp/0k-cache-1000");
}

#[test]
fn test_unescape_mountinfo_space() {
    assert_eq!(unescape_mountinfo("/tmp/my\\040dir"), "/tmp/my dir");
}

#[test]
fn test_unescape_mountinfo_tab() {
    assert_eq!(unescape_mountinfo("/tmp/a\\011b"), "/tmp/a\tb");
}

#[test]
fn test_unescape_mountinfo_no_octal() {
    assert_eq!(unescape_mountinfo("/tmp/a\\bc"), "/tmp/a\\bc");
}

#[test]
fn unescape_newline_backslash_and_edges() {
    assert_eq!(unescape_mountinfo("a\\012b\\134c"), "a\nb\\c");
    assert_eq!(unescape_mountinfo("end\\04"), "end\\04");
    assert_eq!(unescape_mountinfo("\\101\\102"), "AB");
    assert_eq!(unescape_mountinfo("caf\u{e9} dir\\040x"), "caf\u{e9} dir x");
}

#[test]
fn fuse_command_lines() {
    let args = cmdline_args("squashfuse\0-o\0nonempty\0/data/a.sqfs\0/mnt/a\0");
    assert_eq!(args, vec!["squashfuse", "-o", "nonempty", "/data/a.sqfs", "/mnt/a", ""]);
    assert!(is_squashfuse(&args));
    let names = vec![false, false, false, true, false, false];
    assert_eq!(fuse_mount_points(&args, &names), vec!["/mnt/a".to_string()]);
    assert!(fuse_mount_points(&args, &vec![false; 6]).is_empty());
    assert!(!is_squashfuse(&cmdline_args("bash\0-c\0x")));
}

#[test]
fn luks_mount_discovery() {
    assert_eq!(loop_device_of("/dev/loop0: []: (/data/a.img)"), "/dev/loop0");
    assert!(deps_mention(" 1 dependencies  : (loop0)", "/dev/loop0"));
    assert!(!deps_mention(" 1 dependencies  : (loop1)", "/dev/loop0"));
    let m = sq_mapper_mount("/dev/mapper/sq_a_img /mnt/my\\040dir squashfs ro 0 0").unwrap();
    assert_eq!(m.0, "sq_a_img");
    assert_eq!(m.1, "/mnt/my dir");
    assert_eq!(sq_mapper_mount("/dev/sda1 / ext4 rw 0 0"), None);
}

#[test]
fn unmount_methods() {
    assert!(matches!(unmount_method(Some("/dev/mapper/sq_a_img")), UnmountMethod::LuksMapper(n) if n == "sq_a_img"));
    assert!(matches!(unmount_method(Some("squashfuse")), UnmountMethod::Fuse));
    assert!(matches!(unmount_method(None), UnmountMethod::Fuse));
}

#[test]
fn luks_mount_sequence() {
    assert_eq!(first_mount_step(true), MountStep::MountExisting);
    assert_eq!(first_mount_step(false), MountStep::Open);
    assert_eq!(next_mount_step(MountStep::MountExisting, false), MountStep::CloseStale);
    assert_eq!(next_mount_step(MountStep::CloseStale, true), MountStep::Open);
    assert_eq!(next_mount_step(MountStep::Open, true), MountStep::MountOpened);
    assert_eq!(next_mount_step(MountStep::Open, false), MountStep::OpenFailed);
    assert_eq!(next_mount_step(MountStep::MountOpened, false), MountStep::CloseAfterFailure);
    assert_eq!(next_mount_step(MountStep::CloseAfterFailure, true), MountStep::MountFailed);
    assert_eq!(next_mount_step(MountStep::MountOpened, true), MountStep::Done);
}
