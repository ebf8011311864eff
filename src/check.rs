//! Per-item decisions of the check walker: compare, match, delete, or
//! keep a newer live file.

use vstd::prelude::*;
use crate::freeze::CheckOptions;

verus! {

/// The file type that `lstat` reported.
#[derive(Clone, Copy, Debug, PartialEq, Eq, Structural)]
pub enum NodeKind {
    Dir,
    File,
    Symlink,
    Other,
}

/// What the walker learned about one path from `lstat`.
#[derive(Clone, Copy, Debug, PartialEq, Eq, Structural)]
pub struct NodeInfo {
    pub kind: NodeKind,
    pub len: u64,
    /// Modification time in whole seconds since the epoch.
    pub mtime: u64,
}

/// Why a live item does not match the archive.
#[derive(Clone, Copy, Debug, PartialEq, Eq, Structural)]
pub enum Mismatch {
    Type,
    LinkTarget,
    Size,
    Content,
}

/// What to do with, or say about, one live item.
#[derive(Clone, Copy, Debug, PartialEq, Eq, Structural)]
pub enum Verdict {
    Missing,
    Mismatched(Mismatch),
    DirMatched,
    /// Try `rmdir`; a non-empty directory then counts as matched.
    RemoveDir,
    FileMatched,
    LinkMatched,
    SkippedNewer,
    RemoveFile,
    RemoveLink,
}

/// The decision for one item. `links_equal` says whether both link
/// targets could be read and are equal; `contents_equal` whether a
/// byte-by-byte comparison found the contents identical (it is only
/// consulted with `use_cmp`).
pub open spec fn verdict_spec(
    live: Option<NodeInfo>,
    archived: NodeInfo,
    links_equal: bool,
    contents_equal: bool,
    o: CheckOptions,
) -> Verdict {
    match live {
        None => Verdict::Missing,
        Some(l) => {
            if l.kind != archived.kind {
                Verdict::Mismatched(Mismatch::Type)
            } else if l.kind == NodeKind::Dir {
                if o.delete {
                    Verdict::RemoveDir
                } else {
                    Verdict::DirMatched
                }
            } else if l.kind == NodeKind::Symlink && !links_equal {
                Verdict::Mismatched(Mismatch::LinkTarget)
            } else if l.kind != NodeKind::Symlink && l.len != archived.len {
                Verdict::Mismatched(Mismatch::Size)
            } else if l.kind != NodeKind::Symlink && o.use_cmp && !contents_equal {
                Verdict::Mismatched(Mismatch::Content)
            } else if !o.delete {
                if l.kind == NodeKind::Symlink {
                    Verdict::LinkMatched
                } else {
                    Verdict::FileMatched
                }
            } else if !o.use_cmp && !o.force_delete && l.mtime > archived.mtime {
                Verdict::SkippedNewer
            } else if l.kind == NodeKind::Symlink {
                Verdict::RemoveLink
            } else {
                Verdict::RemoveFile
            }
        },
    }
}

/// Decides what happens to one live item compared with its archived copy.
pub fn check_verdict(
    live: Option<NodeInfo>,
    archived: NodeInfo,
    links_equal: bool,
    contents_equal: bool,
    options: CheckOptions,
) -> (r: Verdict)
    ensures
        r == verdict_spec(live, archived, links_equal, contents_equal, options),
        (live is Some && options.delete && !options.use_cmp && !options.force_delete
            && live->0.mtime > archived.mtime) ==> !(r is RemoveFile) && !(r is RemoveLink),
{
    match live {
        None => Verdict::Missing,
        Some(l) => {
            if l.kind != archived.kind {
                Verdict::Mismatched(Mismatch::Type)
            } else if l.kind == NodeKind::Dir {
                if options.delete {
                    Verdict::RemoveDir
                } else {
                    Verdict::DirMatched
                }
            } else if l.kind == NodeKind::Symlink && !links_equal {
                Verdict::Mismatched(Mismatch::LinkTarget)
            } else if l.kind != NodeKind::Symlink && l.len != archived.len {
                Verdict::Mismatched(Mismatch::Size)
            } else if l.kind != NodeKind::Symlink && options.use_cmp && !contents_equal {
                Verdict::Mismatched(Mismatch::Content)
            } else if !options.delete {
                if l.kind == NodeKind::Symlink {
                    Verdict::LinkMatched
                } else {
                    Verdict::FileMatched
                }
            } else if !options.use_cmp && !options.force_delete && l.mtime > archived.mtime {
                Verdict::SkippedNewer
            } else if l.kind == NodeKind::Symlink {
                Verdict::RemoveLink
            } else {
                Verdict::RemoveFile
            }
        },
    }
}

/// The mtime safety gate: with `delete` but neither `use_cmp` nor
/// `force_delete`, a live file or link newer than its archived copy is
/// never chosen for deletion.
pub proof fn lemma_newer_files_survive(
    live: NodeInfo,
    archived: NodeInfo,
    links_equal: bool,
    contents_equal: bool,
    o: CheckOptions,
)
    requires
        o.delete,
        !o.use_cmp,
        !o.force_delete,
        live.mtime > archived.mtime,
    ensures
        !(verdict_spec(Some(live), archived, links_equal, contents_equal, o) is RemoveFile),
        !(verdict_spec(Some(live), archived, links_equal, contents_equal, o) is RemoveLink),
{
}

/// An unchanged tree checks clean: a live item of the same kind, size and
/// link target as its archived copy (and the same contents, when they are
/// compared) is reported as matched, never as missing or mismatched.
pub proof fn lemma_identical_item_matches(
    item: NodeInfo,
    archived: NodeInfo,
    o: CheckOptions,
)
    requires
        item.kind == archived.kind,
        item.len == archived.len,
        !o.delete,
    ensures
        verdict_spec(Some(item), archived, true, true, o) == (match item.kind {
            NodeKind::Dir => Verdict::DirMatched,
            NodeKind::Symlink => Verdict::LinkMatched,
            _ => Verdict::FileMatched,
        }),
{
}

/// Number of items of `kind` in a walk (files and other non-directory,
/// non-link items count as files).
pub open spec fn count_kind(items: Seq<NodeInfo>, kind: NodeKind) -> nat
    decreases items.len(),
{
    if items.len() == 0 {
        0
    } else {
        let k = items.last().kind;
        let counted = if kind == NodeKind::File { k == NodeKind::File || k == NodeKind::Other } else { k == kind };
        count_kind(items.drop_last(), kind) + if counted { 1nat } else { 0nat }
    }
}

/// The counters after recording the outcome of every item of a walk in
/// which each live item equals its archived copy, without deleting.
pub open spec fn tally_identical(items: Seq<NodeInfo>, o: CheckOptions) -> CheckStats
    decreases items.len(),
{
    if items.len() == 0 {
        CheckStats {
            files_matched: 0,
            dirs_matched: 0,
            links_matched: 0,
            files_deleted: 0,
            dirs_deleted: 0,
            links_deleted: 0,
            mismatched: 0,
            missing: 0,
            skipped_newer: 0,
        }
    } else {
        let it = items.last();
        record_spec(
            tally_identical(items.drop_last(), o),
            outcome_spec(verdict_spec(Some(it), it, true, true, o), Removal::Failed),
        )
    }
}

/// Checking an unchanged tree: when every live item equals its archived
/// copy and nothing is deleted, the walk reports no mismatch and nothing
/// missing, and the matched counts are the numbers of files, directories
/// and links (while those stay below the counters' limit).
pub proof fn lemma_unchanged_tree_checks_clean(items: Seq<NodeInfo>, o: CheckOptions)
    requires
        !o.delete,
        items.len() < u64::MAX,
    ensures
        tally_identical(items, o).mismatched == 0,
        tally_identical(items, o).missing == 0,
        tally_identical(items, o).files_matched == count_kind(items, NodeKind::File),
        tally_identical(items, o).dirs_matched == count_kind(items, NodeKind::Dir),
        tally_identical(items, o).links_matched == count_kind(items, NodeKind::Symlink),
    decreases items.len(),
{
    if items.len() > 0 {
        let rest = items.drop_last();
        lemma_unchanged_tree_checks_clean(rest, o);
        lemma_count_bound(rest, NodeKind::File);
        lemma_count_bound(rest, NodeKind::Dir);
        lemma_count_bound(rest, NodeKind::Symlink);
    }
}

proof fn lemma_count_bound(items: Seq<NodeInfo>, kind: NodeKind)
    ensures
        count_kind(items, kind) <= items.len(),
    decreases items.len(),
{
    if items.len() > 0 {
        lemma_count_bound(items.drop_last(), kind);
    }
}

/// How removing a live item went.
#[derive(Clone, Copy, Debug, PartialEq, Eq, Structural)]
pub enum Removal {
    Removed,
    /// `rmdir` refused because the directory still holds entries.
    NotEmpty,
    Failed,
}

/// The counters a check reports.
#[derive(Clone, Copy, Debug, PartialEq, Eq, Structural)]
pub struct CheckStats {
    pub files_matched: u64,
    pub dirs_matched: u64,
    pub links_matched: u64,
    pub files_deleted: u64,
    pub dirs_deleted: u64,
    pub links_deleted: u64,
    pub mismatched: u64,
    pub missing: u64,
    pub skipped_newer: u64,
}

/// What finally became of one item.
#[derive(Clone, Copy, Debug, PartialEq, Eq, Structural)]
pub enum Outcome {
    Missing,
    Mismatched,
    DirMatched,
    DirDeleted,
    FileMatched,
    LinkMatched,
    FileDeleted,
    LinkDeleted,
    SkippedNewer,
    /// A deletion failed; it is reported but not counted.
    Failed,
}

/// The outcome of a verdict, once any removal it asked for was attempted.
pub open spec fn outcome_spec(v: Verdict, removal: Removal) -> Outcome {
    match v {
        Verdict::Missing => Outcome::Missing,
        Verdict::Mismatched(_) => Outcome::Mismatched,
        Verdict::DirMatched => Outcome::DirMatched,
        Verdict::FileMatched => Outcome::FileMatched,
        Verdict::LinkMatched => Outcome::LinkMatched,
        Verdict::SkippedNewer => Outcome::SkippedNewer,
        Verdict::RemoveDir => match removal {
            Removal::Removed => Outcome::DirDeleted,
            Removal::NotEmpty => Outcome::DirMatched,
            Removal::Failed => Outcome::Failed,
        },
        Verdict::RemoveFile => match removal {
            Removal::Removed => Outcome::FileDeleted,
            _ => Outcome::Failed,
        },
        Verdict::RemoveLink => match removal {
            Removal::Removed => Outcome::LinkDeleted,
            _ => Outcome::Failed,
        },
    }
}

pub fn outcome_of(v: Verdict, removal: Removal) -> (r: Outcome)
    ensures
        r == outcome_spec(v, removal),
{
    match v {
        Verdict::Missing => Outcome::Missing,
        Verdict::Mismatched(_) => Outcome::Mismatched,
        Verdict::DirMatched => Outcome::DirMatched,
        Verdict::FileMatched => Outcome::FileMatched,
        Verdict::LinkMatched => Outcome::LinkMatched,
        Verdict::SkippedNewer => Outcome::SkippedNewer,
        Verdict::RemoveDir => match removal {
            Removal::Removed => Outcome::DirDeleted,
            Removal::NotEmpty => Outcome::DirMatched,
            Removal::Failed => Outcome::Failed,
        },
        Verdict::RemoveFile => match removal {
            Removal::Removed => Outcome::FileDeleted,
            _ => Outcome::Failed,
        },
        Verdict::RemoveLink => match removal {
            Removal::Removed => Outcome::LinkDeleted,
            _ => Outcome::Failed,
        },
    }
}

pub open spec fn bump(x: u64) -> u64 {
    if x < u64::MAX { (x + 1) as u64 } else { x }
}

/// The counters after recording one outcome (counters saturate).
pub open spec fn record_spec(s: CheckStats, o: Outcome) -> CheckStats {
    match o {
        Outcome::Missing => CheckStats { missing: bump(s.missing), ..s },
        Outcome::Mismatched => CheckStats { mismatched: bump(s.mismatched), ..s },
        Outcome::DirMatched => CheckStats { dirs_matched: bump(s.dirs_matched), ..s },
        Outcome::DirDeleted => CheckStats { dirs_deleted: bump(s.dirs_deleted), ..s },
        Outcome::FileMatched => CheckStats { files_matched: bump(s.files_matched), ..s },
        Outcome::LinkMatched => CheckStats { links_matched: bump(s.links_matched), ..s },
        Outcome::FileDeleted => CheckStats { files_deleted: bump(s.files_deleted), ..s },
        Outcome::LinkDeleted => CheckStats { links_deleted: bump(s.links_deleted), ..s },
        Outcome::SkippedNewer => CheckStats { skipped_newer: bump(s.skipped_newer), ..s },
        Outcome::Failed => s,
    }
}

impl CheckStats {
    pub fn new() -> (r: CheckStats)
        ensures
            r == (CheckStats {
                files_matched: 0,
                dirs_matched: 0,
                links_matched: 0,
                files_deleted: 0,
                dirs_deleted: 0,
                links_deleted: 0,
                mismatched: 0,
                missing: 0,
                skipped_newer: 0,
            }),
    {
        CheckStats {
            files_matched: 0,
            dirs_matched: 0,
            links_matched: 0,
            files_deleted: 0,
            dirs_deleted: 0,
            links_deleted: 0,
            mismatched: 0,
            missing: 0,
            skipped_newer: 0,
        }
    }

    /// Counts one outcome.
    pub fn record(&mut self, o: Outcome)
        ensures
            *final(self) == record_spec(*old(self), o),
    {
        match o {
            Outcome::Missing => self.missing = self.missing.saturating_add(1),
            Outcome::Mismatched => self.mismatched = self.mismatched.saturating_add(1),
            Outcome::DirMatched => self.dirs_matched = self.dirs_matched.saturating_add(1),
            Outcome::DirDeleted => self.dirs_deleted = self.dirs_deleted.saturating_add(1),
            Outcome::FileMatched => self.files_matched = self.files_matched.saturating_add(1),
            Outcome::LinkMatched => self.links_matched = self.links_matched.saturating_add(1),
            Outcome::FileDeleted => self.files_deleted = self.files_deleted.saturating_add(1),
            Outcome::LinkDeleted => self.links_deleted = self.links_deleted.saturating_add(1),
            Outcome::SkippedNewer => self.skipped_newer = self.skipped_newer.saturating_add(1),
            Outcome::Failed => {},
        }
    }
}

/// One byte stream is a prefix of the other: nothing read so far tells
/// them apart.
pub open spec fn compatible(x: Seq<u8>, y: Seq<u8>) -> bool {
    (x.len() <= y.len() && y.subrange(0, x.len() as int) == x) || (y.len() <= x.len() && x.subrange(
        0,
        y.len() as int,
    ) == y)
}

proof fn lemma_incompatible_extends(x: Seq<u8>, y: Seq<u8>, p: Seq<u8>, q: Seq<u8>)
    requires
        !compatible(x, y),
    ensures
        !compatible(x + p, y + q),
{
    let n = if x.len() <= y.len() { x.len() } else { y.len() };
    if forall|j: int| 0 <= j < n ==> x[j] == y[j] {
        if x.len() <= y.len() {
            assert(y.subrange(0, x.len() as int) =~= x);
        } else {
            assert(x.subrange(0, y.len() as int) =~= y);
        }
    }
    let j = choose|j: int| 0 <= j < n && x[j] != y[j];
    assert((x + p)[j] == x[j] && (y + q)[j] == y[j]);
    if compatible(x + p, y + q) {
        if (x + p).len() <= (y + q).len() {
            assert((y + q).subrange(0, (x + p).len() as int)[j] == (x + p)[j]);
        } else {
            assert((x + p).subrange(0, (y + q).len() as int)[j] == (y + q)[j]);
        }
    }
}

/// Compares two byte streams read in chunks of any size: bytes not yet
/// matched are kept until the other side catches up.
pub struct StreamCompare {
    pub a_rest: Vec<u8>,
    pub b_rest: Vec<u8>,
    pub differ: bool,
    pub matched: Ghost<Seq<u8>>,
    pub seen_a: Ghost<Seq<u8>>,
    pub seen_b: Ghost<Seq<u8>>,
}

impl StreamCompare {
    pub open spec fn wf(&self) -> bool {
        &&& !self.differ ==> self.seen_a@ == self.matched@ + self.a_rest@ && self.seen_b@ == self.matched@
            + self.b_rest@ && (self.a_rest@.len() == 0 || self.b_rest@.len() == 0)
        &&& self.differ <==> !compatible(self.seen_a@, self.seen_b@)
    }

    pub fn new() -> (r: StreamCompare)
        ensures
            r.wf(),
            r.seen_a@ == Seq::<u8>::empty(),
            r.seen_b@ == Seq::<u8>::empty(),
    {
        let r = StreamCompare {
            a_rest: Vec::new(),
            b_rest: Vec::new(),
            differ: false,
            matched: Ghost(Seq::empty()),
            seen_a: Ghost(Seq::empty()),
            seen_b: Ghost(Seq::empty()),
        };
        assert(r.seen_a@ =~= r.matched@ + r.a_rest@);
        assert(r.seen_b@ =~= r.matched@ + r.b_rest@);
        assert(r.seen_a@.subrange(0, 0) =~= r.seen_b@);
        r
    }

    /// Takes the next chunk read from each stream (either may be empty).
    pub fn feed(&mut self, a: &[u8], b: &[u8])
        requires
            old(self).wf(),
        ensures
            final(self).wf(),
            final(self).seen_a@ == old(self).seen_a@ + a@,
            final(self).seen_b@ == old(self).seen_b@ + b@,
            final(self).differ <==> !compatible(final(self).seen_a@, final(self).seen_b@),
    {
        let ghost sa = self.seen_a@ + a@;
        let ghost sb = self.seen_b@ + b@;
        if self.differ {
            proof { lemma_incompatible_extends(self.seen_a@, self.seen_b@, a@, b@); }
            self.seen_a = Ghost(sa);
            self.seen_b = Ghost(sb);
            return;
        }
        let mut i: usize = 0;
        while i < a.len()
            invariant
                sa == old(self).seen_a@ + a@,
                sb == old(self).seen_b@ + b@,
                !self.differ,
                i <= a@.len(),
                self.a_rest@ == old(self).a_rest@ + a@.subrange(0, i as int),
                self.b_rest@ == old(self).b_rest@,
                self.matched@ == old(self).matched@,
            decreases a@.len() - i,
        {
            self.a_rest.push(a[i]);
            i = i + 1;
            assert(self.a_rest@ =~= old(self).a_rest@ + a@.subrange(0, i as int));
        }
        let mut i: usize = 0;
        while i < b.len()
            invariant
                sa == old(self).seen_a@ + a@,
                sb == old(self).seen_b@ + b@,
                !self.differ,
                i <= b@.len(),
                self.a_rest@ == old(self).a_rest@ + a@,
                self.b_rest@ == old(self).b_rest@ + b@.subrange(0, i as int),
                self.matched@ == old(self).matched@,
            decreases b@.len() - i,
        {
            self.b_rest.push(b[i]);
            i = i + 1;
            assert(self.b_rest@ =~= old(self).b_rest@ + b@.subrange(0, i as int));
        }
        assert(a@.subrange(0, a@.len() as int) =~= a@);
        assert(b@.subrange(0, b@.len() as int) =~= b@);
        let ghost m = self.matched@;
        assert(sa =~= m + self.a_rest@);
        assert(sb =~= m + self.b_rest@);
        let n = if self.a_rest.len() <= self.b_rest.len() { self.a_rest.len() } else { self.b_rest.len() };
        let mut j: usize = 0;
        while j < n
            invariant
                sa == old(self).seen_a@ + a@,
                sb == old(self).seen_b@ + b@,
                !self.differ,
                sa == m + self.a_rest@,
                sb == m + self.b_rest@,
                n <= self.a_rest@.len(),
                n <= self.b_rest@.len(),
                j <= n,
                forall|k: int| 0 <= k < j ==> self.a_rest@[k] == self.b_rest@[k],
            decreases n - j,
        {
            if self.a_rest[j] != self.b_rest[j] {
                proof {
                    let k = m.len() + j;
                    assert(sa[k] == self.a_rest@[j as int]);
                    assert(sb[k] == self.b_rest@[j as int]);
                    if compatible(sa, sb) {
                        if sa.len() <= sb.len() {
                            assert(sb.subrange(0, sa.len() as int)[k] == sa[k]);
                        } else {
                            assert(sa.subrange(0, sb.len() as int)[k] == sb[k]);
                        }
                    }
                }
                self.differ = true;
                self.seen_a = Ghost(sa);
                self.seen_b = Ghost(sb);
                return;
            }
            j = j + 1;
        }
        let ghost common = self.a_rest@.subrange(0, n as int);
        assert(common =~= self.b_rest@.subrange(0, n as int));
        assert(n == self.a_rest@.len() || n == self.b_rest@.len());
        let mut na: Vec<u8> = Vec::new();
        let mut k: usize = n;
        while k < self.a_rest.len()
            invariant
                sa == old(self).seen_a@ + a@,
                sb == old(self).seen_b@ + b@,
                !self.differ,
                sa == m + self.a_rest@,
                sb == m + self.b_rest@,
                common == self.a_rest@.subrange(0, n as int),
                common == self.b_rest@.subrange(0, n as int),
                n == self.a_rest@.len() || n == self.b_rest@.len(),
                n <= self.b_rest@.len(),
                n <= k <= self.a_rest@.len(),
                na@ == self.a_rest@.subrange(n as int, k as int),
            decreases self.a_rest@.len() - k,
        {
            na.push(self.a_rest[k]);
            k = k + 1;
            assert(na@ =~= self.a_rest@.subrange(n as int, k as int));
        }
        let mut nb: Vec<u8> = Vec::new();
        let mut k: usize = n;
        while k < self.b_rest.len()
            invariant
                sa == old(self).seen_a@ + a@,
                sb == old(self).seen_b@ + b@,
                !self.differ,
                sa == m + self.a_rest@,
                sb == m + self.b_rest@,
                common == self.a_rest@.subrange(0, n as int),
                common == self.b_rest@.subrange(0, n as int),
                n == self.a_rest@.len() || n == self.b_rest@.len(),
                na@ == self.a_rest@.subrange(n as int, self.a_rest@.len() as int),
                n <= self.a_rest@.len(),
                n <= k <= self.b_rest@.len(),
                nb@ == self.b_rest@.subrange(n as int, k as int),
            decreases self.b_rest@.len() - k,
        {
            nb.push(self.b_rest[k]);
            k = k + 1;
            assert(nb@ =~= self.b_rest@.subrange(n as int, k as int));
        }
        assert(self.a_rest@ =~= common + na@);
        assert(self.b_rest@ =~= common + nb@);
        assert(sa =~= (m + common) + na@);
        assert(sb =~= (m + common) + nb@);
        assert(na@.len() == 0 || nb@.len() == 0);
        self.a_rest = na;
        self.b_rest = nb;
        self.matched = Ghost(m + common);
        self.seen_a = Ghost(sa);
        self.seen_b = Ghost(sb);
        proof {
            let mm = m + common;
            if self.a_rest@.len() == 0 {
                assert(sa =~= mm);
                assert(sb.subrange(0, sa.len() as int) =~= sa);
            } else {
                assert(self.b_rest@.len() == 0);
                assert(sb =~= mm);
                assert(sa.subrange(0, sb.len() as int) =~= sb);
            }
        }
    }

    /// Once both streams have ended: whether they were equal.
    pub fn same(&self) -> (r: bool)
        requires
            self.wf(),
        ensures
            r == (self.seen_a@ == self.seen_b@),
    {
        if self.differ {
            proof {
                if self.seen_a@ == self.seen_b@ {
                    assert(self.seen_b@.subrange(0, self.seen_a@.len() as int) =~= self.seen_a@);
                }
            }
            return false;
        }
        let r = self.a_rest.len() == 0 && self.b_rest.len() == 0;
        proof {
            if r {
                assert(self.seen_a@ =~= self.seen_b@);
            } else {
                assert(self.seen_a@.len() != self.seen_b@.len());
            }
        }
        r
    }
}

} // verus!
