use zero_kelvin::archive::{
    mksquashfs_luks_args, parse_du_bytes, reports_squashfs, decide_output_action, decompressor_for, get_file_type, mksquashfs_dir_args, repack_command, ArchiveType,
    CompressionMode, OutputAction,
};
use zero_kelvin::progress::{percent_from_digits, progress_percent};
use zero_kelvin::luks::{
    archive_file_name, auto_archive_name, close_retry_delay_ms, container_size, fs_overhead_percentage,
    generate_mapper_name, mapper_base_name, mount_dir_name, parse_luks_offset, parse_unsquashfs_size,
    pick_mapper_name, trim_size, zero_fill_blocks,
};

#[test]
fn test_compression_mode_logic() {
    let mode_none = CompressionMode::from_level(0);
    assert_eq!(mode_none, CompressionMode::Uncompressed);

    let mut args = vec![];
    mode_none.apply_to_mksquashfs(&mut args);
    assert_eq!(args, vec!["-no-compression"]);

    assert!(mode_none.get_tar2sqfs_compressor_flag().is_err());

    let mode_zstd = CompressionMode::from_level(15);
    assert_eq!(mode_zstd, CompressionMode::Zstd(15));

    let mut args2 = vec![];
    mode_zstd.apply_to_mksquashfs(&mut args2);
    assert_eq!(args2, vec!["-comp", "zstd", "-Xcompression-level", "15"]);
    assert_eq!(mode_zstd.get_tar2sqfs_compressor_flag().unwrap(), "-c zstd");
}

#[test]
fn test_create_directory_with_no_compression() {
    let args = mksquashfs_dir_args("/in", "output_no_comp.sqfs", true, false, CompressionMode::from_level(0));
    assert_eq!(args, vec!["/in", "output_no_comp.sqfs", "-no-progress", "-noappend", "-no-compression"]);
}

#[test]
fn test_create_plain_archive() {
    let args = mksquashfs_dir_args("/in", "output.sqfs", true, false, CompressionMode::from_level(19));
    assert_eq!(
        args,
        vec!["/in", "output.sqfs", "-no-progress", "-noappend", "-comp", "zstd", "-Xcompression-level", "19"]
    );
    let append = mksquashfs_dir_args("/in", "output.sqfs", false, true, CompressionMode::from_level(3));
    assert_eq!(append, vec!["/in", "output.sqfs", "-comp", "zstd", "-Xcompression-level", "3"]);
}

#[test]
fn existing_output_table() {
    assert_eq!(decide_output_action(false, false, false, false, false).unwrap(), OutputAction::CreateFresh);
    assert_eq!(decide_output_action(true, true, false, true, false).unwrap(), OutputAction::Append);
    assert_eq!(decide_output_action(true, true, false, false, true).unwrap(), OutputAction::Rebuild);
    assert!(decide_output_action(true, true, false, false, false).is_err());
    assert_eq!(decide_output_action(true, false, true, true, false).unwrap(), OutputAction::Append);
    assert!(decide_output_action(true, false, true, false, false).is_err());
    assert!(decide_output_action(true, false, false, false, true).is_err());
    assert!(decide_output_action(true, false, false, true, false).is_err());
}

#[test]
fn decompressor_by_suffix() {
    assert_eq!(decompressor_for("x.tar").unwrap(), "cat");
    assert_eq!(decompressor_for("X.TAR.GZ").unwrap(), "gzip -dc");
    assert_eq!(decompressor_for("a.tgz").unwrap(), "gzip -dc");
    assert_eq!(decompressor_for("a.tar.bz2").unwrap(), "bzip2 -dc");
    assert_eq!(decompressor_for("a.txz").unwrap(), "xz -dc");
    assert_eq!(decompressor_for("a.tar.zst").unwrap(), "zstd -dc");
    assert_eq!(decompressor_for("a.tar.zip").unwrap(), "unzip -p");
    assert_eq!(decompressor_for("a.tar.7z").unwrap(), "7z x -so");
    assert_eq!(decompressor_for("a.tar.rar").unwrap(), "unrar p -inul");
    assert!(decompressor_for("a.zip").is_err());
}

#[test]
fn repack_pipeline_quotes_paths() {
    assert_eq!(
        repack_command("gzip -dc", "/in/it's.tar.gz", "-c zstd", "/out/a b.sqfs"),
        "set -o pipefail; gzip -dc '/in/it'\\''s.tar.gz' | tar2sqfs --quiet --no-skip --force -c zstd '/out/a b.sqfs'"
    );
}

#[test]
fn luks_container_sizing() {
    let mib = 1024 * 1024u64;
    assert_eq!(container_size(0, 10), Some(160 * mib));
    assert_eq!(container_size(1048576, 50), Some(162 * mib));
    assert_eq!(container_size(1048576, 10), Some(162 * mib));
    assert_eq!(container_size(100, 10), Some(161 * mib));
    assert_eq!(container_size(u64::MAX, 50), None);
    assert_eq!(zero_fill_blocks(162 * mib), 163);
    assert_eq!(fs_overhead_percentage("ext2/ext3\n"), 50);
    assert_eq!(fs_overhead_percentage("  btrfs "), 50);
    assert_eq!(fs_overhead_percentage("nfs\n"), 10);
    assert_eq!(fs_overhead_percentage(""), 10);
}

#[test]
fn luks_trim_from_tool_output() {
    let fs = parse_unsquashfs_size("Found a valid SQUASHFS 4:0 superblock\nFilesystem size 500000 bytes (488.28 Kbytes / 0.48 Mbytes)\n");
    assert_eq!(fs, Some(500000));
    assert_eq!(parse_unsquashfs_size("Filesystem size 0.24 Kbytes\n"), None);
    let off = parse_luks_offset("LUKS header information\nData segments:\n  0: crypt\n\toffset: 16777216 [bytes]\n");
    assert_eq!(off, 16777216);
    assert_eq!(parse_luks_offset("Payload offset:\t4096\n"), 4096 * 512);
    assert_eq!(parse_luks_offset("nothing here"), 0);
    assert_eq!(trim_size(500000, 16777216), Some(18329600));
    assert_eq!(trim_size(500000, 0), None);
    assert_eq!(trim_size(u64::MAX - 10, 5), None);
}

#[test]
fn close_backoff() {
    assert_eq!(close_retry_delay_ms(0), 100);
    assert_eq!(close_retry_delay_ms(3), 400);
    assert_eq!(close_retry_delay_ms(4), 500);
    assert_eq!(close_retry_delay_ms(9), 500);
}

#[test]
fn mapper_names() {
    assert_eq!(mapper_base_name("my backup.sqfs_luks.img"), "sq_my_backup_sqfs_luks_img");
    assert_eq!(mapper_base_name("caf\u{e9}-1"), "sq_caf__1");
    let mut in_use = vec![false; 99];
    assert_eq!(pick_mapper_name("sq_a", &in_use, 5, 1234), "sq_a");
    in_use[0] = true;
    in_use[1] = true;
    assert_eq!(pick_mapper_name("sq_a", &in_use, 5, 1234), "sq_a_3");
    let all = vec![true; 99];
    assert_eq!(pick_mapper_name("sq_a", &all, 1700000000, 4321), "sq_a_1700000000_4321");
    let fallback = generate_mapper_name("x.img", &all, 7);
    assert!(fallback.starts_with("sq_x_img_7_"));
    assert_eq!(fallback.len(), "sq_x_img_7_".len() + 4);
}

#[test]
fn generated_file_names() {
    assert_eq!(archive_file_name("myprefix", 1700000000, 123456, false), "myprefix_1700000000_123456.sqfs");
    assert_eq!(archive_file_name("secret", 1, 100000, true), "secret_1_100000.sqfs_luks.img");
    assert_eq!(mount_dir_name("img.sqfs", 2, 654321), "mount_img.sqfs_2_654321");
    let n = auto_archive_name("myprefix", 10, false);
    assert!(n.starts_with("myprefix_10_"));
    assert!(n.ends_with(".sqfs"));
    assert_eq!(n.len(), "myprefix_10_".len() + 6 + ".sqfs".len());
}

#[test]
fn test_reproduce_misleading_extension() {
    assert!(!matches!(get_file_type(b"This is just text, not a tarball"), ArchiveType::Tar), "Should not identify text file as Tar");
    let gz = [0x1f, 0x8b, 0x08, 0x00, 0, 0, 0, 0, 0, 3];
    assert!(matches!(get_file_type(&gz), ArchiveType::Gzip), "Should identify tar.gz (as gzip) even with .txt extension");
    let mut tar = vec![0u8; 512];
    tar[257..262].copy_from_slice(b"ustar");
    assert!(matches!(get_file_type(&tar), ArchiveType::Tar));
    assert!(matches!(get_file_type(&[0x28, 0xb5, 0x2f, 0xfd]), ArchiveType::Zstd));
}

#[test]
fn progress_from_builder_lines() {
    assert_eq!(progress_percent("[=====>    ] 1/2 50%"), Some(50));
    assert_eq!(progress_percent("12% then 34%"), Some(34));
    assert_eq!(progress_percent("no percentage"), None);
    assert_eq!(percent_from_digits("007"), Some(7));
    assert_eq!(percent_from_digits("99999999999999999999"), None);
}

#[test]
fn test_create_encrypted_flow() {
    let args = mksquashfs_luks_args("input_dir", "/dev/mapper/sq_encrypted_sqfs", OutputAction::CreateFresh, true, CompressionMode::from_level(19));
    assert_eq!(
        args,
        vec!["input_dir", "/dev/mapper/sq_encrypted_sqfs", "-no-recovery", "-noappend", "-no-progress", "-comp", "zstd", "-Xcompression-level", "19"]
    );
    let append = mksquashfs_luks_args("in", "/dev/mapper/sq_x", OutputAction::Append, false, CompressionMode::from_level(0));
    assert_eq!(append, vec!["in", "/dev/mapper/sq_x", "-no-recovery", "-no-compression"]);
    assert_eq!(parse_du_bytes("1048576\tinput_dir\n"), 1048576);
    assert_eq!(parse_du_bytes(""), 0);
    assert_eq!(parse_du_bytes("du: cannot access"), 0);
    assert!(reports_squashfs("out.sqfs: Squashfs filesystem, little endian, version 4.0"));
    assert!(!reports_squashfs("out.sqfs: ASCII text"));
}
