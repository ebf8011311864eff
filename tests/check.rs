use zero_kelvin::check::{
    check_verdict, StreamCompare, outcome_of, CheckStats, Mismatch, NodeInfo, NodeKind, Outcome, Removal, Verdict,
};
use zero_kelvin::freeze::CheckOptions;

fn file(len: u64, mtime: u64) -> NodeInfo {
    NodeInfo { kind: NodeKind::File, len, mtime }
}

fn opts(use_cmp: bool, delete: bool, force_delete: bool) -> CheckOptions {
    CheckOptions { use_cmp, delete, force_delete }
}

#[test]
fn mtime_gate_keeps_newer_live_file() {
    // Archive captured x at mtime 100; the live copy has identical content at mtime 200.
    let v = check_verdict(Some(file(6, 200)), file(6, 100), true, true, opts(false, true, false));
    assert_eq!(v, Verdict::SkippedNewer);
    let v = check_verdict(Some(file(6, 200)), file(6, 100), true, true, opts(true, true, false));
    assert_eq!(v, Verdict::RemoveFile);
    let v = check_verdict(Some(file(6, 200)), file(6, 100), true, true, opts(false, true, true));
    assert_eq!(v, Verdict::RemoveFile);
    let v = check_verdict(Some(file(6, 100)), file(6, 100), true, true, opts(false, true, false));
    assert_eq!(v, Verdict::RemoveFile);
}

#[test]
fn mismatches_and_missing() {
    assert_eq!(check_verdict(None, file(1, 1), true, true, opts(false, false, false)), Verdict::Missing);
    let dir = NodeInfo { kind: NodeKind::Dir, len: 0, mtime: 0 };
    assert_eq!(check_verdict(Some(dir), file(1, 1), true, true, opts(false, false, false)), Verdict::Mismatched(Mismatch::Type));
    assert_eq!(check_verdict(Some(file(2, 1)), file(1, 1), true, true, opts(false, false, false)), Verdict::Mismatched(Mismatch::Size));
    assert_eq!(check_verdict(Some(file(1, 1)), file(1, 1), true, false, opts(true, false, false)), Verdict::Mismatched(Mismatch::Content));
    assert_eq!(check_verdict(Some(file(1, 1)), file(1, 1), true, false, opts(false, false, false)), Verdict::FileMatched);
    let link = NodeInfo { kind: NodeKind::Symlink, len: 3, mtime: 0 };
    assert_eq!(check_verdict(Some(link), link, false, true, opts(false, false, false)), Verdict::Mismatched(Mismatch::LinkTarget));
    assert_eq!(check_verdict(Some(link), link, true, true, opts(false, false, false)), Verdict::LinkMatched);
    assert_eq!(check_verdict(Some(link), link, true, true, opts(false, true, false)), Verdict::RemoveLink);
    assert_eq!(check_verdict(Some(dir), dir, true, true, opts(false, false, false)), Verdict::DirMatched);
    assert_eq!(check_verdict(Some(dir), dir, true, true, opts(false, true, false)), Verdict::RemoveDir);
}

#[test]
fn removal_outcomes_and_counters() {
    assert_eq!(outcome_of(Verdict::RemoveDir, Removal::NotEmpty), Outcome::DirMatched);
    assert_eq!(outcome_of(Verdict::RemoveDir, Removal::Removed), Outcome::DirDeleted);
    assert_eq!(outcome_of(Verdict::RemoveFile, Removal::Failed), Outcome::Failed);
    assert_eq!(outcome_of(Verdict::RemoveLink, Removal::Removed), Outcome::LinkDeleted);
    let mut s = CheckStats::new();
    s.record(Outcome::FileMatched);
    s.record(Outcome::FileMatched);
    s.record(Outcome::SkippedNewer);
    s.record(Outcome::Failed);
    s.record(Outcome::Missing);
    assert_eq!(s.files_matched, 2);
    assert_eq!(s.skipped_newer, 1);
    assert_eq!(s.missing, 1);
    assert_eq!(s.mismatched, 0);
    let mut full = CheckStats::new();
    full.mismatched = u64::MAX;
    full.record(Outcome::Mismatched);
    assert_eq!(full.mismatched, u64::MAX);
}

#[test]
fn stream_comparison_ignores_chunk_sizes() {
    let mut c = StreamCompare::new();
    c.feed(b"hel", b"h");
    c.feed(b"lo\n", b"ello");
    c.feed(b"", b"\n");
    assert!(!c.differ);
    assert!(c.same());

    let mut d = StreamCompare::new();
    d.feed(b"abc", b"a");
    d.feed(b"", b"bd");
    assert!(d.differ);
    assert!(!d.same());

    let mut e = StreamCompare::new();
    e.feed(b"abc", b"ab");
    assert!(!e.differ);
    assert!(!e.same());
    let f = StreamCompare::new();
    assert!(f.same());
}
