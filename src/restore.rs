//! Restore planning: where each entry goes, the symlink-redirect defense,
//! the conflict policy and the copier's arguments.

use vstd::prelude::*;
use crate::error::{IoFailure, ZksError};
use crate::freeze::UnfreezeOptions;
use crate::manifest::{opt_view, EntryType, FileEntry};
use crate::paths::{join_path, join_path_exec, split_name, split_name_exec};
use crate::text::{decimal, decimal_exec, owned, push_chars, push_str_chars, string_of, string_views, to_chars};

verus! {

/// Where an entry is restored to, and the directory that must exist first.
/// New entries go to `restore_path/name`; legacy ones to `original_path`.
pub open spec fn destination_spec(e: FileEntry) -> Option<(Seq<char>, Seq<char>)> {
    if e.restore_path is Some && e.name is Some {
        Some((join_path(e.restore_path->0@, e.name->0@), e.restore_path->0@))
    } else if e.original_path is Some {
        Some((e.original_path->0@, split_name(e.original_path->0@).1))
    } else {
        None
    }
}

/// `(destination, parent)` of an entry.
pub fn entry_destination(e: &FileEntry) -> (r: Result<(String, String), ZksError>)
    ensures
        r is Ok <==> destination_spec(*e) is Some,
        r is Ok ==> (r->Ok_0.0@, r->Ok_0.1@) == destination_spec(*e)->0,
        r is Err ==> r->Err_0 is OperationFailed,
{
    match (&e.restore_path, &e.name) {
        (Some(parent), Some(name)) => {
            let d = join_path_exec(&to_chars(parent.as_str()), &to_chars(name.as_str()));
            return Ok((string_of(&d), owned(parent.as_str())));
        },
        _ => {},
    }
    match &e.original_path {
        Some(orig) => {
            let (_, parent) = split_name_exec(&to_chars(orig.as_str()));
            Ok((owned(orig.as_str()), string_of(&parent)))
        },
        None => {
            let mut msg = to_chars("Invalid entry ");
            push_chars(&mut msg, &decimal_exec(e.id as u64));
            push_str_chars(&mut msg, ": missing path info");
            Err(ZksError::OperationFailed(string_of(&msg)))
        },
    }
}

/// The entry's name inside the archive: its `name`, else the last name of
/// its destination, else `unknown`.
pub open spec fn archived_name_spec(e: FileEntry, dest: Seq<char>) -> Seq<char> {
    if e.name is Some {
        e.name->0@
    } else if split_name(dest).0.len() > 0 {
        split_name(dest).0
    } else {
        "unknown"@
    }
}

/// Path of an entry's payload under a mounted archive:
/// `<mount>/to_restore/<id>/<name>`.
pub open spec fn archived_path_spec(mount: Seq<char>, id: u32, name: Seq<char>) -> Seq<char> {
    join_path(join_path(join_path(mount, "to_restore"@), decimal(id as nat)), name)
}

pub fn archived_source_path(mount: &str, e: &FileEntry, dest: &str) -> (r: String)
    ensures
        r@ == archived_path_spec(mount@, e.id, archived_name_spec(*e, dest@)),
{
    let name: Vec<char> = match &e.name {
        Some(n) => to_chars(n.as_str()),
        None => {
            let (n, _) = split_name_exec(&to_chars(dest));
            if n.len() > 0 { n } else { to_chars("unknown") }
        },
    };
    let a = join_path_exec(&to_chars(mount), &to_chars("to_restore"));
    let b = join_path_exec(&a, &decimal_exec(e.id as u64));
    string_of(&join_path_exec(&b, &name))
}

/// Scanning state of `components`: finished components and the one in progress.
pub open spec fn components_fold(s: Seq<char>) -> (Seq<Seq<char>>, Seq<char>)
    decreases s.len(),
{
    if s.len() == 0 {
        (Seq::empty(), Seq::empty())
    } else {
        let (done, cur) = components_fold(s.drop_last());
        if s.last() == '/' {
            (if cur.len() > 0 && cur != "."@ { done.push(cur) } else { done }, Seq::empty())
        } else {
            (done, cur.push(s.last()))
        }
    }
}

/// The names along a path, without empty or `.` components.
pub open spec fn components(s: Seq<char>) -> Seq<Seq<char>> {
    let (done, cur) = components_fold(s);
    if cur.len() > 0 && cur != "."@ {
        done.push(cur)
    } else {
        done
    }
}

/// The path made of the root (for an absolute path) and the first `k` components.
pub open spec fn prefix_path(root: Seq<char>, comps: Seq<Seq<char>>, k: nat) -> Seq<char>
    decreases k,
{
    if k == 0 {
        root
    } else {
        join_path(prefix_path(root, comps, (k - 1) as nat), comps[k - 1])
    }
}

pub open spec fn root_of(p: Seq<char>) -> Seq<char> {
    if p.len() > 0 && p[0] == '/' { seq!['/'] } else { Seq::empty() }
}

/// Every path from the root down to `p` itself, shortest first.
pub open spec fn ancestors(p: Seq<char>) -> Seq<Seq<char>> {
    let comps = components(p);
    let root = root_of(p);
    (if root.len() > 0 { seq![root] } else { Seq::empty() }) + Seq::new(
        comps.len(),
        |k: int| prefix_path(root, comps, (k + 1) as nat),
    )
}

fn is_dot(v: &Vec<char>) -> (r: bool)
    ensures
        r == (v@ == "."@),
{
    proof { reveal_strlit("."); }
    let r = v.len() == 1 && v[0] == '.';
    if r {
        assert(v@ =~= "."@);
    }
    r
}

fn components_exec(s: &Vec<char>) -> (r: Vec<Vec<char>>)
    ensures
        crate::text::views_of(r@) == components(s@),
{
    let mut done: Vec<Vec<char>> = Vec::new();
    let mut cur: Vec<char> = Vec::new();
    let mut i: usize = 0;
    while i < s.len()
        invariant
            i <= s@.len(),
            (crate::text::views_of(done@), cur@) == components_fold(s@.subrange(0, i as int)),
        decreases s@.len() - i,
    {
        let c = s[i];
        assert(s@.subrange(0, i + 1).drop_last() =~= s@.subrange(0, i as int));
        if c == '/' {
            if cur.len() > 0 && !is_dot(&cur) {
                done.push(cur);
            }
            cur = Vec::new();
        } else {
            cur.push(c);
        }
        i = i + 1;
        assert(crate::text::views_of(done@) =~= components_fold(s@.subrange(0, i as int)).0);
    }
    assert(s@.subrange(0, i as int) =~= s@);
    if cur.len() > 0 && !is_dot(&cur) {
        done.push(cur);
    }
    assert(crate::text::views_of(done@) =~= components(s@));
    done
}

/// Every path from the root down to `dest`, shortest first: the paths
/// whose `lstat` the symlink-redirect defense asks for.
pub fn ancestor_paths(dest: &str) -> (r: Vec<String>)
    ensures
        string_views(r@) == ancestors(dest@),
{
    let p = to_chars(dest);
    let comps = components_exec(&p);
    let ghost cv = crate::text::views_of(comps@);
    let mut out: Vec<String> = Vec::new();
    let mut cur: Vec<char> = Vec::new();
    if p.len() > 0 && p[0] == '/' {
        cur.push('/');
        out.push(string_of(&cur));
    }
    let ghost root = root_of(dest@);
    let ghost head = if root.len() > 0 { seq![root] } else { Seq::<Seq<char>>::empty() };
    assert(cur@ == root);
    assert(string_views(out@) =~= head);
    let mut k: usize = 0;
    while k < comps.len()
        invariant
            cv == components(dest@),
            cv == crate::text::views_of(comps@),
            k <= comps@.len(),
            cur@ == prefix_path(root, cv, k as nat),
            string_views(out@) == head + Seq::new(k as nat, |j: int| prefix_path(root, cv, (j + 1) as nat)),
        decreases comps@.len() - k,
    {
        assert(comps@[k as int]@ == cv[k as int]);
        cur = join_path_exec(&cur, &comps[k]);
        assert(cur@ == prefix_path(root, cv, (k + 1) as nat));
        let ghost before = string_views(out@);
        out.push(string_of(&cur));
        assert(string_views(out@) =~= before.push(cur@));
        k = k + 1;
        assert(string_views(out@) =~= head + Seq::new(k as nat, |j: int| prefix_path(root, cv, (j + 1) as nat)));
    }
    out
}

/// What `lstat` said about one ancestor of the destination.
#[derive(Clone, Debug)]
pub enum Probe {
    Symlink,
    Present,
    Absent,
    Failed(IoFailure),
}

/// The walk from the root passes: every ancestor up to the first absent
/// one exists and is not a symlink, and no `lstat` failed on the way.
pub open spec fn walk_ok(probes: Seq<Probe>) -> bool
    decreases probes.len(),
{
    if probes.len() == 0 {
        true
    } else if probes[0] is Absent {
        true
    } else if probes[0] is Present {
        walk_ok(probes.drop_first())
    } else {
        false
    }
}

/// No write goes through a symlink: when the walk passes, no ancestor that
/// precedes the first absent one is a symlink.
pub proof fn lemma_walk_ok_no_symlink(probes: Seq<Probe>, k: int)
    requires
        walk_ok(probes),
        0 <= k < probes.len(),
        forall|j: int| 0 <= j < k ==> !(#[trigger] probes[j] is Absent),
    ensures
        !(probes[k] is Symlink),
    decreases k,
{
    if k > 0 {
        assert(!(probes[0] is Absent));
        let rest = probes.drop_first();
        assert forall|j: int| 0 <= j < k - 1 implies !(#[trigger] rest[j] is Absent) by {
            assert(rest[j] == probes[j + 1]);
        }
        lemma_walk_ok_no_symlink(rest, k - 1);
    }
}

proof fn lemma_walk_ok_step(probes: Seq<Probe>, i: int)
    requires
        0 <= i < probes.len(),
        forall|j: int| 0 <= j < i ==> #[trigger] probes[j] is Present,
    ensures
        walk_ok(probes) == walk_ok(probes.subrange(i, probes.len() as int)),
    decreases i,
{
    if i > 0 {
        let rest = probes.drop_first();
        assert forall|j: int| 0 <= j < i - 1 implies #[trigger] rest[j] is Present by {
            assert(rest[j] == probes[j + 1]);
        }
        lemma_walk_ok_step(rest, i - 1);
        assert(rest.subrange(i - 1, rest.len() as int) =~= probes.subrange(i, probes.len() as int));
    } else {
        assert(probes.subrange(0, probes.len() as int) =~= probes);
    }
}

proof fn lemma_walk_ok_all_present(probes: Seq<Probe>)
    requires
        forall|j: int| 0 <= j < probes.len() ==> #[trigger] probes[j] is Present,
    ensures
        walk_ok(probes),
    decreases probes.len(),
{
    if probes.len() > 0 {
        let rest = probes.drop_first();
        assert forall|j: int| 0 <= j < rest.len() implies #[trigger] rest[j] is Present by {
            assert(rest[j] == probes[j + 1]);
        }
        lemma_walk_ok_all_present(rest);
    }
}

/// The walk gets to ancestor `k`: all those before it exist as real directories.
pub open spec fn walk_reaches(probes: Seq<Probe>, k: int) -> bool {
    0 <= k < probes.len() && forall|j: int| 0 <= j < k ==> #[trigger] probes[j] is Present
}

/// The security refusal for a symlinked ancestor.
pub open spec fn symlink_refusal_text(path: Seq<char>) -> Seq<char> {
    "Security: restore path component "@ + path + " is a symlink; it could redirect writes elsewhere. Aborting."@
}

pub fn check_ancestor_probes(paths: &Vec<String>, probes: &Vec<Probe>) -> (r: Result<(), ZksError>)
    requires
        paths@.len() == probes@.len(),
    ensures
        r is Ok <==> walk_ok(probes@),
        r is Err ==> exists|k: int|
            #[trigger] walk_reaches(probes@, k) && match probes@[k] {
                Probe::Symlink => r->Err_0 == ZksError::OperationFailed(r->Err_0->OperationFailed_0)
                    && r->Err_0->OperationFailed_0@ == symlink_refusal_text(paths@[k]@),
                Probe::Failed(f) => r->Err_0 is IoError && r->Err_0->IoError_0.kind == f.kind
                    && r->Err_0->IoError_0.raw_os_error == f.raw_os_error
                    && r->Err_0->IoError_0.message@ == f.message@,
                _ => false,
            },
{
    let mut i: usize = 0;
    while i < probes.len()
        invariant
            paths@.len() == probes@.len(),
            i <= probes@.len(),
            forall|j: int| 0 <= j < i ==> #[trigger] probes@[j] is Present,
        decreases probes@.len() - i,
    {
        proof {
            lemma_walk_ok_step(probes@, i as int);
            let rest = probes@.subrange(i as int, probes@.len() as int);
            assert(rest[0] == probes@[i as int]);
        }
        match &probes[i] {
            Probe::Symlink => {
                assert(walk_reaches(probes@, i as int));
                let mut msg = to_chars("Security: restore path component ");
                push_str_chars(&mut msg, paths[i].as_str());
                push_str_chars(&mut msg, " is a symlink; it could redirect writes elsewhere. Aborting.");
                return Err(ZksError::OperationFailed(string_of(&msg)));
            },
            Probe::Failed(f) => {
                assert(walk_reaches(probes@, i as int));
                return Err(ZksError::IoError(crate::error::copy_failure(f)));
            },
            Probe::Absent => {
                return Ok(());
            },
            Probe::Present => {},
        }
        i = i + 1;
    }
    proof {
        lemma_walk_ok_all_present(probes@);
    }
    Ok(())
}

/// How an existing destination is handled.
#[derive(Clone, Copy, Debug, PartialEq, Eq, Structural)]
pub enum ConflictPlan {
    /// Copy as usual (nothing there, or overwriting).
    Copy,
    /// Merge into the existing directory, keeping files already there.
    MergeKeepExisting,
    /// Leave the existing file alone.
    Skip,
}

/// The conflict policy: `skip_existing` merges into a directory and skips
/// a file; otherwise an existing destination needs `overwrite`.
pub open spec fn conflict_spec(exists: bool, is_dir: bool, o: UnfreezeOptions) -> Option<ConflictPlan> {
    if !exists {
        Some(ConflictPlan::Copy)
    } else if o.skip_existing {
        if is_dir {
            Some(ConflictPlan::MergeKeepExisting)
        } else {
            Some(ConflictPlan::Skip)
        }
    } else if o.overwrite {
        Some(ConflictPlan::Copy)
    } else {
        None
    }
}

pub fn resolve_conflict(dest: &str, exists: bool, is_dir: bool, options: UnfreezeOptions) -> (r: Result<ConflictPlan, ZksError>)
    ensures
        r is Ok <==> conflict_spec(exists, is_dir, options) is Some,
        r is Ok ==> r->Ok_0 == conflict_spec(exists, is_dir, options)->0,
        r is Err ==> r->Err_0 == ZksError::OperationFailed(r->Err_0->OperationFailed_0)
            && r->Err_0->OperationFailed_0@ == "File exists: "@ + dest@ + ". Use --overwrite to replace/merge."@,
{
    if !exists {
        Ok(ConflictPlan::Copy)
    } else if options.skip_existing {
        if is_dir {
            Ok(ConflictPlan::MergeKeepExisting)
        } else {
            Ok(ConflictPlan::Skip)
        }
    } else if options.overwrite {
        Ok(ConflictPlan::Copy)
    } else {
        let mut msg = to_chars("File exists: ");
        push_str_chars(&mut msg, dest);
        push_str_chars(&mut msg, ". Use --overwrite to replace/merge.");
        Err(ZksError::OperationFailed(string_of(&msg)))
    }
}

/// The copier's source: a directory gets a trailing `/` so that its
/// contents land in the destination rather than one level below.
pub open spec fn copy_source(src: Seq<char>, t: EntryType) -> Seq<char> {
    if t == EntryType::Directory { src.push('/') } else { src }
}

/// `rsync` arguments for one entry, optionally led by `rsync` itself (when
/// run through an elevation helper).
pub open spec fn rsync_args_spec(src: Seq<char>, dest: Seq<char>, t: EntryType, merge: bool, elevated: bool) -> Seq<Seq<char>> {
    let flag: Seq<Seq<char>> = if merge { seq!["--ignore-existing"@] } else { Seq::empty() };
    if elevated {
        seq!["rsync"@, "-a"@] + flag + seq!["--info=progress2"@, copy_source(src, t), dest]
    } else {
        seq!["-a"@, "--info=progress2"@] + flag + seq![copy_source(src, t), dest]
    }
}

pub fn rsync_args(src: &str, dest: &str, t: EntryType, merge: bool, elevated: bool) -> (r: Vec<String>)
    ensures
        string_views(r@) == rsync_args_spec(src@, dest@, t, merge, elevated),
{
    let mut s = to_chars(src);
    if t == EntryType::Directory {
        s.push('/');
    }
    let mut v: Vec<String> = Vec::new();
    if elevated {
        v.push(owned("rsync"));
        v.push(owned("-a"));
        if merge {
            v.push(owned("--ignore-existing"));
        }
        v.push(owned("--info=progress2"));
    } else {
        v.push(owned("-a"));
        v.push(owned("--info=progress2"));
        if merge {
            v.push(owned("--ignore-existing"));
        }
    }
    v.push(string_of(&s));
    v.push(owned(dest));
    assert(string_views(v@) =~= rsync_args_spec(src@, dest@, t, merge, elevated));
    v
}

} // verus!
