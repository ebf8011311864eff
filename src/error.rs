//! The closed set of failure kinds and their user-facing hints.

use vstd::prelude::*;
use crate::text::{ascii_lower, ascii_lower_exec, contains, contains_exec, occurs_at, push_str_chars, string_of, to_chars};

verus! {

/// What the OS said about a failed I/O call, as far as the engine reads it.
#[derive(Clone, Copy, Debug, PartialEq, Eq, Structural)]
pub enum IoKind {
    PermissionDenied,
    NotFound,
    AlreadyExists,
    DirectoryNotEmpty,
    Other,
}

/// An I/O failure: its kind, the raw errno when there is one, and the OS text.
#[derive(Clone, Debug)]
pub struct IoFailure {
    pub kind: IoKind,
    pub raw_os_error: Option<i32>,
    pub message: String,
}

/// Every failure the engine reports.
#[derive(Clone, Debug)]
pub enum ZksError {
    ManifestError(String),
    IoError(IoFailure),
    CompressionError(String),
    LuksError(String),
    StagingError(String),
    OperationFailed(String),
    Unknown(String),
    InvalidPath(String),
    MissingTarget(String),
    /// A usage error of the command line, with the exit code to end with.
    CliExit(i32),
}

/// A copy of an I/O failure.
pub fn copy_failure(f: &IoFailure) -> (r: IoFailure)
    ensures
        r.kind == f.kind,
        r.raw_os_error == f.raw_os_error,
        r.message@ == f.message@,
{
    IoFailure { kind: f.kind, raw_os_error: f.raw_os_error, message: string_of(&to_chars(f.message.as_str())) }
}

/// errno for "no space left on device".
pub const ENOSPC: i32 = 28;

/// The lower-case form of a text, as `str::to_lowercase` computes it.
pub uninterp spec fn lower_of(s: Seq<char>) -> Seq<char>;

/// Relies on `str::to_lowercase`: the result depends only on the characters.
#[verifier::external_body]
pub(crate) fn lowercase(s: &str) -> (r: String)
    ensures
        r@ == lower_of(s@),
{
    s.to_lowercase()
}

pub open spec fn bad_passphrase_marker() -> Seq<char> {
    "no key available with this passphrase"@
}

/// A lower-cased message reports a permission problem.
pub open spec fn permission_marked(lowered: Seq<char>) -> bool {
    contains(lowered, "permission denied"@) || contains(lowered, "operation not permitted"@)
        || contains(lowered, "cannot initialize device-mapper"@) || contains(
        lowered,
        "must be run as root"@,
    ) || contains(lowered, "insufficient read permissions"@)
}

/// Whether a lower-cased message carries one of the permission markers.
pub fn permission_marked_exec(lowered: &str) -> (r: bool)
    ensures
        r == permission_marked(lowered@),
{
    let l = to_chars(lowered);
    contains_exec(&l, &to_chars("permission denied")) || contains_exec(
        &l,
        &to_chars("operation not permitted"),
    ) || contains_exec(&l, &to_chars("cannot initialize device-mapper")) || contains_exec(
        &l,
        &to_chars("must be run as root"),
    ) || contains_exec(&l, &to_chars("insufficient read permissions"))
}

/// Whether a lower-cased message is cryptsetup's wrong-passphrase report.
pub fn bad_passphrase_marked(lowered: &str) -> (r: bool)
    ensures
        r == contains(lowered@, bad_passphrase_marker()),
{
    contains_exec(&to_chars(lowered), &to_chars("no key available with this passphrase"))
}

/// The error is a permission problem that elevation may cure. The message
/// is first folded on ASCII letters only, then fully lower-cased; a marker
/// found by the first is always found by the second, since the markers are
/// lower-case ASCII.
pub open spec fn permission_denied_spec(e: ZksError) -> bool {
    match e {
        ZksError::IoError(f) => f.kind == IoKind::PermissionDenied,
        ZksError::OperationFailed(m) => permission_marked(ascii_lower(m@)) || permission_marked(lower_of(m@)),
        _ => false,
    }
}

pub open spec fn disk_full_hint() -> Seq<char> {
    "Disk is full. Free space and try again."@
}

pub open spec fn passphrase_hint() -> Seq<char> {
    "Incorrect passphrase."@
}

/// The remediation hint for an error, if it has one.
pub open spec fn friendly_spec(e: ZksError) -> Option<Seq<char>> {
    match e {
        ZksError::IoError(f) => if f.raw_os_error == Some(ENOSPC) {
            Some(disk_full_hint())
        } else {
            None
        },
        ZksError::LuksError(m) => if contains(lower_of(m@), bad_passphrase_marker()) {
            Some(passphrase_hint())
        } else {
            None
        },
        ZksError::OperationFailed(m) => if contains(lower_of(m@), bad_passphrase_marker()) {
            Some(passphrase_hint())
        } else {
            None
        },
        _ => None,
    }
}

/// The text of an error: its kind, then its detail.
pub open spec fn message_spec(e: ZksError) -> Seq<char> {
    match e {
        ZksError::ManifestError(m) => "Manifest error: "@ + m@,
        ZksError::IoError(f) => "IO error: "@ + f.message@,
        ZksError::CompressionError(m) => "Compression error: "@ + m@,
        ZksError::LuksError(m) => "LUKS error: "@ + m@,
        ZksError::StagingError(m) => "Staging error: "@ + m@,
        ZksError::OperationFailed(m) => "Operation failed: "@ + m@,
        ZksError::Unknown(m) => "Unknown error: "@ + m@,
        ZksError::InvalidPath(m) => "Invalid path: "@ + m@,
        ZksError::MissingTarget(m) => "Missing target: "@ + m@,
        ZksError::CliExit(_) => "invalid command line"@,
    }
}

impl ZksError {
    /// A hint for the user: a full disk or a wrong passphrase.
    pub fn friendly_message(&self) -> (r: Option<String>)
        ensures
            r is Some <==> friendly_spec(*self) is Some,
            r is Some ==> r->0@ == friendly_spec(*self)->0,
    {
        match self {
            ZksError::IoError(f) => {
                if f.raw_os_error == Some(ENOSPC) {
                    Some(string_of(&to_chars("Disk is full. Free space and try again.")))
                } else {
                    None
                }
            },
            ZksError::LuksError(m) | ZksError::OperationFailed(m) => {
                let lowered = lowercase(m.as_str());
                if bad_passphrase_marked(lowered.as_str()) {
                    Some(string_of(&to_chars("Incorrect passphrase.")))
                } else {
                    None
                }
            },
            _ => None,
        }
    }

    /// The text of the error, with its kind in front.
    pub fn message(&self) -> (r: String)
        ensures
            r@ == message_spec(*self),
    {
        let mut out: Vec<char> = Vec::new();
        match self {
            ZksError::ManifestError(m) => {
                push_str_chars(&mut out, "Manifest error: ");
                push_str_chars(&mut out, m.as_str());
            },
            ZksError::IoError(f) => {
                push_str_chars(&mut out, "IO error: ");
                push_str_chars(&mut out, f.message.as_str());
            },
            ZksError::CompressionError(m) => {
                push_str_chars(&mut out, "Compression error: ");
                push_str_chars(&mut out, m.as_str());
            },
            ZksError::LuksError(m) => {
                push_str_chars(&mut out, "LUKS error: ");
                push_str_chars(&mut out, m.as_str());
            },
            ZksError::StagingError(m) => {
                push_str_chars(&mut out, "Staging error: ");
                push_str_chars(&mut out, m.as_str());
            },
            ZksError::OperationFailed(m) => {
                push_str_chars(&mut out, "Operation failed: ");
                push_str_chars(&mut out, m.as_str());
            },
            ZksError::Unknown(m) => {
                push_str_chars(&mut out, "Unknown error: ");
                push_str_chars(&mut out, m.as_str());
            },
            ZksError::InvalidPath(m) => {
                push_str_chars(&mut out, "Invalid path: ");
                push_str_chars(&mut out, m.as_str());
            },
            ZksError::MissingTarget(m) => {
                push_str_chars(&mut out, "Missing target: ");
                push_str_chars(&mut out, m.as_str());
            },
            ZksError::CliExit(_) => {
                push_str_chars(&mut out, "invalid command line");
            },
        }
        assert(out@ =~= message_spec(*self));
        string_of(&out)
    }
}

/// A failure whose text carries a permission marker at a known place; it
/// counts as permission denied.
pub proof fn lemma_marked_failure(m: Seq<char>, marker: Seq<char>, at: int)
    requires
        occurs_at(ascii_lower(m), marker, at),
        marker == "permission denied"@ || marker == "operation not permitted"@
            || marker == "cannot initialize device-mapper"@ || marker == "must be run as root"@
            || marker == "insufficient read permissions"@,
    ensures
        permission_marked(ascii_lower(m)),
{
}

/// Whether the error is a permission problem, so that the caller may retry
/// the operation once through an elevation helper.
pub fn is_permission_denied(err: &ZksError) -> (r: bool)
    ensures
        r == permission_denied_spec(*err),
{
    match err {
        ZksError::IoError(f) => f.kind == IoKind::PermissionDenied,
        ZksError::OperationFailed(m) => {
            let folded = string_of(&ascii_lower_exec(&to_chars(m.as_str())));
            if permission_marked_exec(folded.as_str()) {
                return true;
            }
            let lowered = lowercase(m.as_str());
            permission_marked_exec(lowered.as_str())
        },
        _ => false,
    }
}

} // verus!
