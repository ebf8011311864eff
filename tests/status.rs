use zero_kelvin::procstatus::{is_root, parse_uid_from_status};

#[test]
fn test_parse_uid_effective_root() {
    let status_content = "Name:\tzks\nState:\tR (running)\nUid:\t1000\t0\t1000\t1000\nGid:\t1000\t1000\t1000\t1000";
    let uid = parse_uid_from_status(status_content).unwrap();
    assert_eq!(uid, 0, "Should parse effective UID as 0");
}

#[test]
fn test_parse_uid_real_root_only() {
    let status_content = "Uid:\t0\t1000\t1000\t1000";
    let uid = parse_uid_from_status(status_content).unwrap();
    assert_eq!(uid, 1000, "Should parse effective UID as 1000");
}

#[test]
fn test_parse_uid_standard_user() {
    let status_content = "Uid:\t1000\t1000\t1000\t1000";
    let uid = parse_uid_from_status(status_content).unwrap();
    assert_eq!(uid, 1000);
}

#[test]
fn parse_uid_errors() {
    assert!(parse_uid_from_status("Name:\tx\n").is_err());
    assert!(parse_uid_from_status("Uid:\t1\tabc\t1\t1").is_err());
    assert!(parse_uid_from_status("Uid:\t1\t4294967296\t1\t1").is_err());
    assert_eq!(parse_uid_from_status("Uid: 5\nUid:\t1\t7\t1\t1").unwrap(), 7);
    assert_eq!(parse_uid_from_status("Uid:\t1\t4294967295\t1\t1").unwrap(), 4294967295);
}

#[test]
fn is_root_from_status() {
    assert_eq!(is_root("Uid:\t1000\t0\t0\t0\n").unwrap(), true);
    assert_eq!(is_root("Uid:\t0\t1000\t0\t0\n").unwrap(), false);
    assert!(is_root("").is_err());
}
