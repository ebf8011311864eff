//! Freeze planning: the bind-mount script and the namespace strategy.

use vstd::prelude::*;
use crate::error::{lemma_marked_failure, permission_denied_spec, ZksError};
use crate::manifest::{EntryType, FileEntry, Manifest};
use crate::paths::{join_path, join_path_exec};
use crate::quote::{quote_chars, quoted};
use crate::text::{ascii_lower, owned, string_views, decimal, decimal_exec, push_chars, push_str_chars, string_of, to_chars};

verus! {

/// How the archive builder shows progress.
#[derive(Clone, Copy, Debug, PartialEq, Eq, Structural)]
pub enum ProgressMode {
    NoProgress,
    Vanilla,
    Alfa,
}

/// What the user asked of a freeze.
#[derive(Clone, Debug)]
pub struct FreezeOptions {
    pub encrypt: bool,
    pub output: String,
    pub overwrite_files: bool,
    pub overwrite_luks_content: bool,
    pub progress_mode: ProgressMode,
    pub compression: Option<u32>,
    pub dereference: bool,
}

/// Conflict policy of an unfreeze.
#[derive(Clone, Copy, Debug, PartialEq, Eq, Structural)]
pub struct UnfreezeOptions {
    pub overwrite: bool,
    pub skip_existing: bool,
}

/// What a check compares and whether it deletes.
#[derive(Clone, Copy, Debug, PartialEq, Eq, Structural)]
pub struct CheckOptions {
    pub use_cmp: bool,
    pub delete: bool,
    pub force_delete: bool,
}

/// Where an entry's stub sits inside the build directory.
pub open spec fn stub_path(build_dir: Seq<char>, payload: Seq<char>, id: u32, name: Seq<char>) -> Seq<char> {
    join_path(
        join_path(join_path(join_path(build_dir, payload), "to_restore"@), decimal(id as nat)),
        name,
    )
}

/// The bind-mount line of one entry; symlinks and entries without a name
/// and parent get none.
pub open spec fn mount_line(build_dir: Seq<char>, payload: Seq<char>, e: FileEntry) -> Seq<char> {
    if e.entry_type == EntryType::Symlink || e.restore_path is None || e.name is None {
        Seq::empty()
    } else {
        let src = join_path(e.restore_path->0@, e.name->0@);
        let dest = stub_path(build_dir, payload, e.id, e.name->0@);
        "mount --bind "@ + quoted(src) + " "@ + quoted(dest) + "\n"@
    }
}

/// The bind-mount lines of all entries, in manifest order.
pub open spec fn mount_lines(build_dir: Seq<char>, payload: Seq<char>, files: Seq<FileEntry>) -> Seq<char>
    decreases files.len(),
{
    if files.len() == 0 {
        Seq::empty()
    } else {
        mount_lines(build_dir, payload, files.drop_last()) + mount_line(build_dir, payload, files.last())
    }
}

pub open spec fn progress_flag(m: ProgressMode) -> Seq<char> {
    match m {
        ProgressMode::NoProgress => "--no-progress"@,
        ProgressMode::Vanilla => "--vanilla-progress"@,
        ProgressMode::Alfa => "--alfa-progress"@,
    }
}

/// The optional builder flags, each with a leading blank.
pub open spec fn builder_flags(o: FreezeOptions) -> Seq<char> {
    (if o.overwrite_files { " --overwrite-files"@ } else { Seq::empty() })
        + (if o.overwrite_luks_content { " --overwrite-luks-content"@ } else { Seq::empty() })
        + (match o.compression {
        Some(l) => " --compression "@ + decimal(l as nat),
        None => Seq::empty(),
    })
}

/// The archive-builder invocation that ends the script.
pub open spec fn create_line(build_dir: Seq<char>, payload: Seq<char>, o: FreezeOptions) -> Seq<char> {
    "0k-core create "@ + (if o.encrypt { "--encrypt"@ } else { Seq::empty() }) + " "@
        + progress_flag(o.progress_mode) + " "@ + builder_flags(o) + "  "@ + quoted(
        join_path(build_dir, payload),
    ) + " "@ + quoted(o.output@) + "\n"@
}

/// The whole freeze script.
pub open spec fn freeze_script(build_dir: Seq<char>, payload: Seq<char>, m: Manifest, o: FreezeOptions) -> Seq<char> {
    "#!/bin/sh\nset -e\n"@ + mount_lines(build_dir, payload, m.files@) + create_line(build_dir, payload, o)
}

fn mount_line_exec(build_dir: &Vec<char>, payload: &Vec<char>, e: &FileEntry) -> (r: Vec<char>)
    ensures
        r@ == mount_line(build_dir@, payload@, *e),
{
    let mut out: Vec<char> = Vec::new();
    if e.entry_type == EntryType::Symlink {
        return out;
    }
    match (&e.restore_path, &e.name) {
        (Some(parent), Some(name)) => {
            let name_v = to_chars(name.as_str());
            let src = join_path_exec(&to_chars(parent.as_str()), &name_v);
            let bp = join_path_exec(build_dir, payload);
            let tr = join_path_exec(&bp, &to_chars("to_restore"));
            let idd = join_path_exec(&tr, &decimal_exec(e.id as u64));
            let dest = join_path_exec(&idd, &name_v);
            push_str_chars(&mut out, "mount --bind ");
            push_chars(&mut out, &quote_chars(&src));
            push_str_chars(&mut out, " ");
            push_chars(&mut out, &quote_chars(&dest));
            push_str_chars(&mut out, "\n");
            out
        },
        _ => out,
    }
}

/// Writes the freeze script: one `mount --bind` line per non-symlink entry
/// (source `restore_path/name`, destination its stub under the payload
/// directory), then one archive-builder call from the payload directory to
/// the chosen output. Every path is single-quoted.
pub fn generate_freeze_script(
    manifest: &Manifest,
    build_dir: &str,
    payload_name: &str,
    options: &FreezeOptions,
) -> (r: Result<String, ZksError>)
    ensures
        r is Ok,
        r->Ok_0@ == freeze_script(build_dir@, payload_name@, *manifest, *options),
{
    let b = to_chars(build_dir);
    let p = to_chars(payload_name);
    let mut out: Vec<char> = Vec::new();
    push_str_chars(&mut out, "#!/bin/sh\nset -e\n");
    let mut i: usize = 0;
    while i < manifest.files.len()
        invariant
            b@ == build_dir@,
            p@ == payload_name@,
            i <= manifest.files@.len(),
            out@ == "#!/bin/sh\nset -e\n"@ + mount_lines(b@, p@, manifest.files@.subrange(0, i as int)),
        decreases manifest.files@.len() - i,
    {
        let line = mount_line_exec(&b, &p, &manifest.files[i]);
        push_chars(&mut out, &line);
        proof {
            let s = manifest.files@.subrange(0, i + 1);
            assert(s.drop_last() =~= manifest.files@.subrange(0, i as int));
        }
        i = i + 1;
    }
    assert(manifest.files@.subrange(0, i as int) =~= manifest.files@);
    let tail = create_line_exec(&b, &p, options);
    push_chars(&mut out, &tail);
    Ok(string_of(&out))
}

fn flags_exec(o: &FreezeOptions) -> (r: Vec<char>)
    ensures
        r@ == builder_flags(*o),
{
    let mut out: Vec<char> = Vec::new();
    if o.overwrite_files {
        push_str_chars(&mut out, " --overwrite-files");
    }
    let ghost a = out@;
    if o.overwrite_luks_content {
        push_str_chars(&mut out, " --overwrite-luks-content");
    }
    let ghost b = out@;
    match o.compression {
        Some(l) => {
            push_str_chars(&mut out, " --compression ");
            push_chars(&mut out, &decimal_exec(l as u64));
        },
        None => {},
    }
    assert(out@ =~= builder_flags(*o));
    out
}

fn create_line_exec(b: &Vec<char>, p: &Vec<char>, o: &FreezeOptions) -> (r: Vec<char>)
    ensures
        r@ == create_line(b@, p@, *o),
{
    let enc = if o.encrypt { to_chars("--encrypt") } else { Vec::new() };
    let prog = match o.progress_mode {
        ProgressMode::NoProgress => to_chars("--no-progress"),
        ProgressMode::Vanilla => to_chars("--vanilla-progress"),
        ProgressMode::Alfa => to_chars("--alfa-progress"),
    };
    let flags = flags_exec(o);
    let q1 = quote_chars(&join_path_exec(b, p));
    let q2 = quote_chars(&to_chars(o.output.as_str()));
    let mut out: Vec<char> = to_chars("0k-core create ");
    push_chars(&mut out, &enc);
    push_str_chars(&mut out, " ");
    push_chars(&mut out, &prog);
    push_str_chars(&mut out, " ");
    push_chars(&mut out, &flags);
    push_str_chars(&mut out, "  ");
    push_chars(&mut out, &q1);
    push_str_chars(&mut out, " ");
    push_chars(&mut out, &q2);
    push_str_chars(&mut out, "\n");
    assert(out@ =~= create_line(b@, p@, *o));
    out
}

/// Why an encrypted freeze by an ordinary user is refused.
pub open spec fn luks_needs_root_text() -> Seq<char> {
    "Encrypted freeze (-e) must be run as root for LUKS."@
}

/// The namespace flags given to `unshare` for a freeze, by the decision
/// table: root gets a private mount namespace only; an ordinary user gets a
/// user namespace too, mapped to root inside; an encrypted freeze needs root.
pub open spec fn unshare_strategy(encrypt: bool, is_root: bool) -> Option<Seq<Seq<char>>> {
    if is_root {
        Some(seq!["-m"@, "--propagation"@, "private"@])
    } else if encrypt {
        None
    } else {
        Some(seq!["-m"@, "-U"@, "-r"@, "--propagation"@, "private"@])
    }
}

/// The full `unshare` argument list that runs the script, or the refusal of
/// an encrypted freeze by a non-root user.
pub fn unshare_args(encrypt: bool, is_root: bool, script_path: &str) -> (r: Result<Vec<String>, ZksError>)
    ensures
        r is Ok <==> unshare_strategy(encrypt, is_root) is Some,
        r is Ok ==> string_views(r->Ok_0@) == unshare_strategy(encrypt, is_root)->0 + seq!["sh"@, script_path@],
        r is Err ==> r->Err_0 == ZksError::OperationFailed(r->Err_0->OperationFailed_0)
            && r->Err_0->OperationFailed_0@ == luks_needs_root_text()
            && permission_denied_spec(r->Err_0),
{
    let mut v: Vec<String> = Vec::new();
    if is_root {
        v.push(string_of(&to_chars("-m")));
        v.push(string_of(&to_chars("--propagation")));
        v.push(string_of(&to_chars("private")));
    } else if encrypt {
        let msg = owned("Encrypted freeze (-e) must be run as root for LUKS.");
        proof {
            reveal_strlit("Encrypted freeze (-e) must be run as root for LUKS.");
            reveal_strlit("must be run as root");
            let l = ascii_lower(msg@);
            assert(l.subrange(22, 41) =~= "must be run as root"@);
            lemma_marked_failure(msg@, "must be run as root"@, 22);
        }
        return Err(ZksError::OperationFailed(msg));
    } else {
        v.push(string_of(&to_chars("-m")));
        v.push(string_of(&to_chars("-U")));
        v.push(string_of(&to_chars("-r")));
        v.push(string_of(&to_chars("--propagation")));
        v.push(string_of(&to_chars("private")));
    }
    v.push(string_of(&to_chars("sh")));
    v.push(string_of(&to_chars(script_path)));
    assert(string_views(v@) =~= unshare_strategy(encrypt, is_root)->0 + seq!["sh"@, script_path@]);
    Ok(v)
}

} // verus!
