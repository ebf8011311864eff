//! The archive's index: entries, metadata, and the invariants checked on
//! load and before every write.

use vstd::prelude::*;
use crate::error::ZksError;
use crate::paths::{has_dotdot_component, has_dotdot_component_exec, split_name, split_name_exec};
use crate::text::{decimal, decimal_exec, push_chars, push_str_chars, string_of, to_chars};

verus! {

/// What a target was when it was staged.
#[derive(Clone, Copy, Debug, PartialEq, Eq, Structural)]
pub enum EntryType {
    File,
    Directory,
    Symlink,
}

/// Whether the archive was made by root or by an ordinary user.
#[derive(Clone, Copy, Debug, PartialEq, Eq, Structural)]
pub enum PrivilegeMode {
    User,
    Root,
}

/// One archived target. New archives carry `name` and `restore_path`
/// (the parent directory); legacy ones carry only `original_path`.
#[derive(Clone, Debug)]
pub struct FileEntry {
    pub id: u32,
    pub entry_type: EntryType,
    pub name: Option<String>,
    pub restore_path: Option<String>,
    pub original_path: Option<String>,
}

/// Where and how the archive was made.
#[derive(Clone, Debug)]
pub struct Metadata {
    pub date: String,
    pub host: String,
    pub privilege_mode: Option<PrivilegeMode>,
}

/// The whole index.
#[derive(Clone, Debug)]
pub struct Manifest {
    pub metadata: Metadata,
    pub files: Vec<FileEntry>,
}

/// Largest manifest file accepted, in bytes.
pub const MANIFEST_MAX_SIZE: u64 = 10485760;

/// A name may be used as a single directory entry.
pub open spec fn name_ok(n: Seq<char>) -> bool {
    n != "."@ && n != ".."@ && !n.contains('/') && !n.contains('\0')
}

pub open spec fn opt_view(o: Option<String>) -> Option<Seq<char>> {
    match o {
        Some(s) => Some(s@),
        None => None,
    }
}

pub open spec fn bad_name_text(n: Seq<char>) -> Seq<char> {
    "Invalid name: '"@ + n + "'. Names cannot be '.', '..', or contain '/' or null bytes."@
}

pub open spec fn bad_restore_text(p: Seq<char>) -> Seq<char> {
    "Invalid restore_path contains '..': "@ + p
}

pub open spec fn bad_original_text(p: Seq<char>) -> Seq<char> {
    "Invalid original_path contains '..': "@ + p
}

pub open spec fn missing_location_text() -> Seq<char> {
    "Missing location: needs name and restore_path, or original_path"@
}

/// Why an entry breaks the invariants, or `None` when it keeps them.
pub open spec fn entry_problem(e: FileEntry) -> Option<Seq<char>> {
    if e.name is Some && !name_ok(e.name->0@) {
        Some(bad_name_text(e.name->0@))
    } else if e.restore_path is Some && has_dotdot_component(e.restore_path->0@) {
        Some(bad_restore_text(e.restore_path->0@))
    } else if e.original_path is Some && has_dotdot_component(e.original_path->0@) {
        Some(bad_original_text(e.original_path->0@))
    } else if !((e.name is Some && e.restore_path is Some) || e.original_path is Some) {
        Some(missing_location_text())
    } else {
        None
    }
}

pub open spec fn entry_valid(e: FileEntry) -> bool {
    entry_problem(e) is None
}

/// Every entry of the manifest keeps the invariants.
pub open spec fn manifest_valid(m: Manifest) -> bool {
    forall|i: int| 0 <= i < m.files@.len() ==> entry_valid(#[trigger] m.files@[i])
}

pub open spec fn entry_failure_text(e: FileEntry) -> Seq<char> {
    "Validation failed for file ID "@ + decimal(e.id as nat) + ": "@ + entry_problem(e)->0
}

fn name_ok_exec(n: &String) -> (r: bool)
    ensures
        r == name_ok(n@),
{
    let v = to_chars(n.as_str());
    assert(v@ == n@);
    proof {
        reveal_strlit(".");
        reveal_strlit("..");
    }
    if v.len() == 1 && v[0] == '.' {
        assert(v@ =~= "."@);
        return false;
    }
    if v.len() == 2 && v[0] == '.' && v[1] == '.' {
        assert(v@ =~= ".."@);
        return false;
    }
    let mut i: usize = 0;
    while i < v.len()
        invariant
            v@ == n@,
            i <= v@.len(),
            forall|j: int| 0 <= j < i ==> v@[j] != '/' && v@[j] != '\0',
        decreases v@.len() - i,
    {
        if v[i] == '/' || v[i] == '\0' {
            let ghost k = i as int;
            if v[i] == '/' {
                assert(0 <= k < n@.len() && n@[k] == '/');
            } else {
                assert(0 <= k < n@.len() && n@[k] == '\0');
            }
            return false;
        }
        i = i + 1;
    }
    assert(v@ != "."@) by {
        if v@ == "."@ { assert(v@.len() == 1 && v@[0] == '.'); }
    }
    assert(v@ != ".."@) by {
        if v@ == ".."@ { assert(v@.len() == 2 && v@[0] == '.' && v@[1] == '.'); }
    }
    true
}

impl FileEntry {
    /// Builds the entry for an absolute target path: its last name and the
    /// directory holding it. Fails when the path is not absolute, has no
    /// last name, or the entry would break the invariants.
    pub fn from_path(id: u32, abs_path: &str, entry_type: EntryType) -> (r: Result<FileEntry, ZksError>)
        ensures
            ({
                let (name, parent) = split_name(abs_path@);
                let cand = FileEntry {
                    id,
                    entry_type,
                    name: None,
                    restore_path: None,
                    original_path: None,
                };
                r is Ok <==> (abs_path@.len() > 0 && abs_path@[0] == '/' && name.len() > 0
                    && name_ok(name) && !has_dotdot_component(parent))
            }),
            r is Ok ==> ({
                let (name, parent) = split_name(abs_path@);
                let e = r->Ok_0;
                &&& e.id == id
                &&& e.entry_type == entry_type
                &&& opt_view(e.name) == Some(name)
                &&& opt_view(e.restore_path) == Some(parent)
                &&& e.original_path is None
                &&& entry_valid(e)
            }),
            r is Err ==> r->Err_0 is InvalidPath,
    {
        let p = to_chars(abs_path);
        if p.len() == 0 || p[0] != '/' {
            return Err(ZksError::InvalidPath(string_of(&p)));
        }
        let (name, parent) = split_name_exec(&p);
        let name_s = string_of(&name);
        if name.len() == 0 || !name_ok_exec(&name_s) || has_dotdot_component_exec(&parent) {
            return Err(ZksError::InvalidPath(string_of(&p)));
        }
        let e = FileEntry {
            id,
            entry_type,
            name: Some(name_s),
            restore_path: Some(string_of(&parent)),
            original_path: None,
        };
        Ok(e)
    }

    /// Checks the entry against the manifest invariants; the error says why.
    pub fn validate(&self) -> (r: Result<(), ZksError>)
        ensures
            r is Ok <==> entry_valid(*self),
            r is Err ==> r->Err_0 is ManifestError && entry_problem(*self) == Some(
                r->Err_0->ManifestError_0@,
            ),
    {
        let mut msg: Vec<char> = Vec::new();
        match &self.name {
            Some(n) => {
                if !name_ok_exec(n) {
                    push_str_chars(&mut msg, "Invalid name: '");
                    push_str_chars(&mut msg, n.as_str());
                    push_str_chars(&mut msg, "'. Names cannot be '.', '..', or contain '/' or null bytes.");
                    return Err(ZksError::ManifestError(string_of(&msg)));
                }
            },
            None => {},
        }
        match &self.restore_path {
            Some(p) => {
                if has_dotdot_component_exec(&to_chars(p.as_str())) {
                    push_str_chars(&mut msg, "Invalid restore_path contains '..': ");
                    push_str_chars(&mut msg, p.as_str());
                    return Err(ZksError::ManifestError(string_of(&msg)));
                }
            },
            None => {},
        }
        match &self.original_path {
            Some(p) => {
                if has_dotdot_component_exec(&to_chars(p.as_str())) {
                    push_str_chars(&mut msg, "Invalid original_path contains '..': ");
                    push_str_chars(&mut msg, p.as_str());
                    return Err(ZksError::ManifestError(string_of(&msg)));
                }
            },
            None => {},
        }
        if !((self.name.is_some() && self.restore_path.is_some()) || self.original_path.is_some()) {
            push_str_chars(&mut msg, "Missing location: needs name and restore_path, or original_path");
            return Err(ZksError::ManifestError(string_of(&msg)));
        }
        Ok(())
    }
}

impl Metadata {
    /// Metadata for a new archive; `date` is the OS's rendering of now.
    pub fn new(host: String, privilege_mode: PrivilegeMode, date: String) -> (r: Metadata)
        ensures
            r.host@ == host@,
            r.date@ == date@,
            r.privilege_mode == Some(privilege_mode),
    {
        Metadata { date, host, privilege_mode: Some(privilege_mode) }
    }
}

impl Manifest {
    pub fn new(metadata: Metadata, files: Vec<FileEntry>) -> (r: Manifest)
        ensures
            r.metadata == metadata,
            r.files@ == files@,
    {
        Manifest { metadata, files }
    }

    /// Checks every entry; the error names the first failing id and why.
    pub fn validate(&self) -> (r: Result<(), ZksError>)
        ensures
            r is Ok <==> manifest_valid(*self),
            r is Err ==> exists|k: int|
                0 <= k < self.files@.len() && !entry_valid(#[trigger] self.files@[k])
                    && (forall|j: int| 0 <= j < k ==> entry_valid(#[trigger] self.files@[j]))
                    && r->Err_0 == ZksError::ManifestError(r->Err_0->ManifestError_0)
                    && r->Err_0->ManifestError_0@ == entry_failure_text(self.files@[k]),
    {
        let mut i: usize = 0;
        while i < self.files.len()
            invariant
                i <= self.files@.len(),
                forall|j: int| 0 <= j < i ==> entry_valid(#[trigger] self.files@[j]),
            decreases self.files@.len() - i,
        {
            let e = &self.files[i];
            match e.validate() {
                Ok(()) => {},
                Err(err) => {
                    let mut msg: Vec<char> = Vec::new();
                    push_str_chars(&mut msg, "Validation failed for file ID ");
                    let d = decimal_exec(e.id as u64);
                    push_chars(&mut msg, &d);
                    push_str_chars(&mut msg, ": ");
                    match err {
                        ZksError::ManifestError(why) => push_str_chars(&mut msg, why.as_str()),
                        _ => {},
                    }
                    assert(msg@ =~= entry_failure_text(self.files@[i as int]));
                    return Err(ZksError::ManifestError(string_of(&msg)));
                },
            }
            i = i + 1;
        }
        Ok(())
    }
}

/// Refuses a manifest file larger than `MANIFEST_MAX_SIZE` before it is parsed.
pub fn check_manifest_size(len: u64) -> (r: Result<(), ZksError>)
    ensures
        r is Ok <==> len <= MANIFEST_MAX_SIZE,
        r is Err ==> r->Err_0 is ManifestError,
{
    if len > MANIFEST_MAX_SIZE {
        Err(ZksError::ManifestError(string_of(&to_chars("manifest file exceeds the 10 MiB limit"))))
    } else {
        Ok(())
    }
}

/// Every entry of a manifest that passed validation keeps the invariants:
/// its name is not `.` or `..` and holds no `/` or NUL, neither path holds a
/// `..` component, and it says where to restore to.
pub proof fn lemma_validated_entries_keep_invariants(m: Manifest, i: int)
    requires
        manifest_valid(m),
        0 <= i < m.files@.len(),
    ensures
        ({
            let e = m.files@[i];
            &&& e.name is Some ==> (e.name->0@ != "."@ && e.name->0@ != ".."@
                && !e.name->0@.contains('/') && !e.name->0@.contains('\0'))
            &&& e.restore_path is Some ==> !has_dotdot_component(e.restore_path->0@)
            &&& e.original_path is Some ==> !has_dotdot_component(e.original_path->0@)
            &&& (e.name is Some && e.restore_path is Some) || e.original_path is Some
        }),
{
    assert(entry_valid(m.files@[i]));
}

/// A name that merely contains consecutive dots (such as `backup..2024.tar`)
/// is accepted, as long as it is not `..` itself and holds no `/` or NUL.
pub proof fn lemma_consecutive_dots_accepted(n: Seq<char>, i: int)
    requires
        0 <= i && i + 2 <= n.len() && n[i] == '.' && n[i + 1] == '.',
        n != ".."@,
        !n.contains('/'),
        !n.contains('\0'),
    ensures
        name_ok(n),
{
    assert(n.len() >= 2);
    reveal_strlit(".");
    assert(n != "."@) by {
        if n == "."@ { assert(n.len() == 1); }
    }
}

} // verus!
