//! Staging: the per-user cache root, build directories, and the entries
//! for the targets of a freeze.

use vstd::prelude::*;
use crate::error::ZksError;
use crate::manifest::{entry_valid, name_ok, opt_view, EntryType, FileEntry};
use crate::paths::{has_dotdot_component, split_name};
use crate::text::{decimal, decimal_exec, owned, push_chars, push_str_chars, starts_with, starts_with_exec, string_of, to_chars};

verus! {

/// `$TMPDIR/0k-cache-<uid>`, `/tmp` standing in for an unset `TMPDIR`.
pub open spec fn cache_root_spec(tmpdir: Option<Seq<char>>, uid: u32) -> Seq<char> {
    (match tmpdir {
        Some(t) => t,
        None => "/tmp"@,
    }) + "/0k-cache-"@ + decimal(uid as nat)
}

pub fn cache_root_path(tmpdir: Option<&str>, uid: u32) -> (r: String)
    ensures
        r@ == cache_root_spec(
            match tmpdir {
                Some(t) => Some(t@),
                None => None,
            },
            uid,
        ),
{
    let mut out = match tmpdir {
        Some(t) => to_chars(t),
        None => to_chars("/tmp"),
    };
    push_str_chars(&mut out, "/0k-cache-");
    push_chars(&mut out, &decimal_exec(uid as u64));
    string_of(&out)
}

/// What `lstat` reported about a cache root that already existed.
#[derive(Clone, Copy, Debug, PartialEq, Eq, Structural)]
pub struct ExistingDir {
    pub is_symlink: bool,
    pub is_dir: bool,
    pub owner_uid: u32,
    pub mode: u32,
}

/// What to do with the cache root before use.
#[derive(Clone, Copy, Debug, PartialEq, Eq, Structural)]
pub enum CacheRootAction {
    /// Set its mode to 0700.
    Restrict,
    /// Use it as it is.
    Keep,
}

/// The cache root may be used: it is a real directory owned by us.
pub open spec fn cache_root_safe(e: ExistingDir, uid: u32) -> bool {
    !e.is_symlink && e.is_dir && e.owner_uid == uid
}

/// Decides about the cache root after an atomic `mkdir`: a directory we
/// just created is restricted to 0700; an existing one is refused when it
/// is a symlink, not a directory, or owned by another user, and otherwise
/// restricted unless its mode already is 0700.
pub fn check_cache_root(path: &str, existing: Option<ExistingDir>, uid: u32) -> (r: Result<CacheRootAction, ZksError>)
    ensures
        existing is None ==> r == Ok::<CacheRootAction, ZksError>(CacheRootAction::Restrict),
        existing is Some ==> (r is Ok <==> cache_root_safe(existing->0, uid)),
        existing is Some && r is Ok ==> r->Ok_0 == (if existing->0.mode & 0o777 == 0o700 {
            CacheRootAction::Keep
        } else {
            CacheRootAction::Restrict
        }),
        r is Err ==> r->Err_0 is StagingError,
{
    match existing {
        None => Ok(CacheRootAction::Restrict),
        Some(e) => {
            if e.is_symlink {
                let mut msg = to_chars("Security: ");
                push_str_chars(&mut msg, path);
                push_str_chars(&mut msg, " is a symlink (possible attack). Refusing to use.");
                Err(ZksError::StagingError(string_of(&msg)))
            } else if !e.is_dir {
                let mut msg = to_chars("Security: ");
                push_str_chars(&mut msg, path);
                push_str_chars(&mut msg, " exists but is not a directory.");
                Err(ZksError::StagingError(string_of(&msg)))
            } else if e.owner_uid != uid {
                let mut msg = to_chars("Security: ");
                push_str_chars(&mut msg, path);
                push_str_chars(&mut msg, " is owned by uid ");
                push_chars(&mut msg, &decimal_exec(e.owner_uid as u64));
                push_str_chars(&mut msg, " but we are uid ");
                push_chars(&mut msg, &decimal_exec(uid as u64));
                push_str_chars(&mut msg, ". Refusing to use.");
                Err(ZksError::StagingError(string_of(&msg)))
            } else if e.mode & 0o777 == 0o700 {
                Ok(CacheRootAction::Keep)
            } else {
                Ok(CacheRootAction::Restrict)
            }
        },
    }
}

/// The cache root is never used when it exists as a symlink or belongs to
/// another user: the decision is then an error.
pub proof fn lemma_unsafe_cache_root_refused(e: ExistingDir, uid: u32)
    requires
        e.is_symlink || e.owner_uid != uid,
    ensures
        !cache_root_safe(e, uid),
{
}

/// `build_<seconds>_<rnd>`.
pub open spec fn build_dir_name_spec(secs: nat, rnd: nat) -> Seq<char> {
    "build_"@ + decimal(secs) + "_"@ + decimal(rnd)
}

pub fn build_dir_name(secs: u64, rnd: u32) -> (r: String)
    ensures
        r@ == build_dir_name_spec(secs as nat, rnd as nat),
{
    let mut out = to_chars("build_");
    push_chars(&mut out, &decimal_exec(secs));
    push_str_chars(&mut out, "_");
    push_chars(&mut out, &decimal_exec(rnd as u64));
    string_of(&out)
}

/// Relies on `rand::random::<u32>`: any `u32` may come back.
#[verifier::external_body]
fn random_u32() -> (r: u32) {
    rand::random::<u32>()
}

/// A build-directory name with a fresh random part.
pub fn fresh_build_dir_name(secs: u64) -> (r: String)
    ensures
        exists|rnd: nat| rnd <= u32::MAX && r@ == build_dir_name_spec(secs as nat, rnd),
{
    let rnd = random_u32();
    build_dir_name(secs, rnd)
}

/// Garbage collection only looks at siblings named `build_...`.
pub fn is_build_dir_name(name: &str) -> (r: bool)
    ensures
        r == starts_with(name@, "build_"@),
{
    starts_with_exec(&to_chars(name), &to_chars("build_"))
}

/// The file type of a target as staged: `lstat`'s answer by default, the
/// answer of `stat` (which follows links) when dereferencing.
pub open spec fn staged_type_spec(lstat_is_symlink: bool, followed_is_dir: bool, lstat_is_dir: bool, dereference: bool) -> EntryType {
    if dereference {
        if followed_is_dir { EntryType::Directory } else { EntryType::File }
    } else if lstat_is_symlink {
        EntryType::Symlink
    } else if lstat_is_dir {
        EntryType::Directory
    } else {
        EntryType::File
    }
}

/// Classifies a target. A symlink is kept as a symlink (its stub is a real
/// link with the same target) unless dereferencing, which stages what it
/// points to: never a symlink.
pub fn staged_type(lstat_is_symlink: bool, lstat_is_dir: bool, followed_is_dir: bool, dereference: bool) -> (r: EntryType)
    ensures
        r == staged_type_spec(lstat_is_symlink, followed_is_dir, lstat_is_dir, dereference),
        lstat_is_symlink && !dereference ==> r == EntryType::Symlink,
        dereference ==> r != EntryType::Symlink,
{
    if dereference {
        if followed_is_dir { EntryType::Directory } else { EntryType::File }
    } else if lstat_is_symlink {
        EntryType::Symlink
    } else if lstat_is_dir {
        EntryType::Directory
    } else {
        EntryType::File
    }
}

/// Staging a symlink target keeps a symlink entry unless dereferencing,
/// and a dereferencing freeze never stages a symlink: the entry that
/// `staging_entries` makes for a target classified by `staged_type` has
/// the classified type.
pub proof fn lemma_symlink_entries(
    e: FileEntry,
    t: Target,
    lstat_is_symlink: bool,
    lstat_is_dir: bool,
    followed_is_dir: bool,
    dereference: bool,
)
    requires
        t.entry_type == staged_type_spec(lstat_is_symlink, followed_is_dir, lstat_is_dir, dereference),
        entry_key_of(e) == target_key(t),
    ensures
        lstat_is_symlink && !dereference ==> e.entry_type == EntryType::Symlink,
        dereference ==> e.entry_type != EntryType::Symlink,
{
}

/// A target of a freeze: its absolute path and staged type.
#[derive(Clone, Debug)]
pub struct Target {
    pub path: String,
    pub entry_type: EntryType,
}

/// A target can be staged: its path is absolute with a usable last name
/// and no `..` in its parent.
pub open spec fn target_ok(path: Seq<char>) -> bool {
    let (name, parent) = split_name(path);
    path.len() > 0 && path[0] == '/' && name.len() > 0 && name_ok(name) && !has_dotdot_component(parent)
}

/// An entry without its id: what stays the same whatever the target order.
pub open spec fn entry_key(t: EntryType, path: Seq<char>) -> (EntryType, Seq<char>, Seq<char>) {
    (t, split_name(path).0, split_name(path).1)
}

pub open spec fn target_key(t: Target) -> (EntryType, Seq<char>, Seq<char>) {
    entry_key(t.entry_type, t.path@)
}

pub open spec fn entry_key_of(e: FileEntry) -> (EntryType, Seq<char>, Seq<char>) {
    (e.entry_type, opt_view(e.name)->0, opt_view(e.restore_path)->0)
}

/// Builds the manifest entries of the targets, in order, with ids 1, 2, ...
pub fn staging_entries(targets: &Vec<Target>) -> (r: Result<Vec<FileEntry>, ZksError>)
    requires
        targets@.len() < u32::MAX,
    ensures
        r is Ok <==> forall|i: int| 0 <= i < targets@.len() ==> target_ok(#[trigger] targets@[i].path@),
        r is Ok ==> r->Ok_0@.len() == targets@.len() && forall|i: int| 0 <= i < targets@.len() ==> {
            let e = #[trigger] r->Ok_0@[i];
            &&& e.id == i + 1
            &&& entry_valid(e)
            &&& opt_view(e.name) is Some && opt_view(e.restore_path) is Some
            &&& entry_key_of(e) == target_key(targets@[i])
        },
        r is Err ==> r->Err_0 is InvalidPath,
{
    let mut out: Vec<FileEntry> = Vec::new();
    let mut i: usize = 0;
    while i < targets.len()
        invariant
            targets@.len() < u32::MAX,
            i <= targets@.len(),
            out@.len() == i,
            forall|k: int| 0 <= k < i ==> target_ok(#[trigger] targets@[k].path@),
            forall|k: int| 0 <= k < i ==> {
                let e = #[trigger] out@[k];
                &&& e.id == k + 1
                &&& entry_valid(e)
                &&& opt_view(e.name) is Some && opt_view(e.restore_path) is Some
                &&& entry_key_of(e) == target_key(targets@[k])
            },
        decreases targets@.len() - i,
    {
        let t = &targets[i];
        match FileEntry::from_path((i + 1) as u32, t.path.as_str(), t.entry_type) {
            Ok(e) => {
                out.push(e);
            },
            Err(err) => {
                assert(!target_ok(targets@[i as int].path@));
                return Err(err);
            },
        }
        i = i + 1;
    }
    Ok(out)
}

/// Staging does not depend on target order: two target lists with the
/// same members give entries that are equal once ids are ignored.
pub proof fn lemma_staging_order_independent(
    t1: Seq<Target>,
    e1: Seq<FileEntry>,
    t2: Seq<Target>,
    e2: Seq<FileEntry>,
)
    requires
        t1.to_set() == t2.to_set(),
        e1.len() == t1.len(),
        e2.len() == t2.len(),
        forall|i: int| 0 <= i < t1.len() ==> entry_key_of(#[trigger] e1[i]) == target_key(t1[i]),
        forall|i: int| 0 <= i < t2.len() ==> entry_key_of(#[trigger] e2[i]) == target_key(t2[i]),
    ensures
        e1.map_values(|e: FileEntry| entry_key_of(e)).to_set() == e2.map_values(|e: FileEntry| entry_key_of(e)).to_set(),
{
    let m1 = e1.map_values(|e: FileEntry| entry_key_of(e));
    let m2 = e2.map_values(|e: FileEntry| entry_key_of(e));
    let s1 = m1.to_set();
    let s2 = m2.to_set();
    assert forall|x| s1.contains(x) implies s2.contains(x) by {
        let i = choose|i: int| 0 <= i < m1.len() && #[trigger] m1[i] == x;
        assert(t1.to_set().contains(t1[i]));
        assert(t2.to_set().contains(t1[i]));
        let j = choose|j: int| 0 <= j < t2.len() && #[trigger] t2[j] == t1[i];
        assert(m2[j] == x);
    }
    assert forall|x| s2.contains(x) implies s1.contains(x) by {
        let j = choose|j: int| 0 <= j < m2.len() && #[trigger] m2[j] == x;
        assert(t2.to_set().contains(t2[j]));
        assert(t1.to_set().contains(t2[j]));
        let i = choose|i: int| 0 <= i < t1.len() && #[trigger] t1[i] == t2[j];
        assert(m1[i] == x);
    }
    assert(s1 =~= s2);
}

} // verus!
