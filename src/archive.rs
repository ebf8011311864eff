//! Archive-builder rules: compression flags, what to do with an existing
//! output, the repack pipeline, and generated names.

use vstd::prelude::*;
use crate::error::{lowercase, lower_of, ZksError};
use crate::quote::{quote_body, quote_chars, quoted};
use crate::text::{
    decimal, decimal_exec, ends_with, ends_with_exec, owned, push_chars, push_str_chars,
    string_of, string_views, to_chars,
};

verus! {

/// Default zstd level of new archives.
pub const DEFAULT_ZSTD_COMPRESSION: u32 = 19;

/// How the archive's contents are compressed; level 0 means none.
#[derive(Clone, Copy, Debug, PartialEq, Eq, Structural)]
pub enum CompressionMode {
    Uncompressed,
    Zstd(u32),
}

/// The `mksquashfs` flags of a compression mode.
pub open spec fn mksquashfs_flags(m: CompressionMode) -> Seq<Seq<char>> {
    match m {
        CompressionMode::Uncompressed => seq!["-no-compression"@],
        CompressionMode::Zstd(l) => seq!["-comp"@, "zstd"@, "-Xcompression-level"@, decimal(l as nat)],
    }
}

impl CompressionMode {
    pub fn from_level(level: u32) -> (r: CompressionMode)
        ensures
            r == (if level == 0 { CompressionMode::Uncompressed } else { CompressionMode::Zstd(level) }),
    {
        if level == 0 {
            CompressionMode::Uncompressed
        } else {
            CompressionMode::Zstd(level)
        }
    }

    /// Appends the mode's `mksquashfs` flags.
    pub fn apply_to_mksquashfs(&self, args: &mut Vec<String>)
        ensures
            string_views(final(args)@) == string_views(old(args)@) + mksquashfs_flags(*self),
    {
        let ghost start = string_views(args@);
        match self {
            CompressionMode::Uncompressed => {
                args.push(owned("-no-compression"));
            },
            CompressionMode::Zstd(level) => {
                args.push(owned("-comp"));
                args.push(owned("zstd"));
                args.push(owned("-Xcompression-level"));
                args.push(string_of(&decimal_exec(*level as u64)));
            },
        }
        assert(string_views(args@) =~= start + mksquashfs_flags(*self));
    }

    /// The `tar2sqfs` compressor flag; repacking cannot store uncompressed.
    pub fn get_tar2sqfs_compressor_flag(&self) -> (r: Result<String, ZksError>)
        ensures
            match *self {
                CompressionMode::Uncompressed => r is Err && r->Err_0 is CompressionError,
                CompressionMode::Zstd(_) => r is Ok && r->Ok_0@ == "-c zstd"@,
            },
    {
        match self {
            CompressionMode::Uncompressed => Err(ZksError::CompressionError(owned(
                "Archive repacking does not support uncompressed mode",
            ))),
            CompressionMode::Zstd(_) => Ok(owned("-c zstd")),
        }
    }
}

/// What the builder does with the output file.
#[derive(Clone, Copy, Debug, PartialEq, Eq, Structural)]
pub enum OutputAction {
    /// No output yet: create it.
    CreateFresh,
    /// Add the input to the existing image.
    Append,
    /// Replace the SquashFS inside an existing LUKS container.
    Rebuild,
}

/// The decision table for an output path, given what is already there.
pub open spec fn output_decision(
    exists: bool,
    is_luks: bool,
    is_sqfs: bool,
    overwrite_files: bool,
    overwrite_luks_content: bool,
) -> Option<OutputAction> {
    if !exists {
        Some(OutputAction::CreateFresh)
    } else if !overwrite_files && !overwrite_luks_content {
        None
    } else if overwrite_files && !is_luks && !is_sqfs {
        None
    } else if overwrite_luks_content && !is_luks {
        None
    } else if overwrite_luks_content {
        Some(OutputAction::Rebuild)
    } else {
        Some(OutputAction::Append)
    }
}

/// Applies the decision table; refusals name the flag that would be needed.
pub fn decide_output_action(
    exists: bool,
    is_luks: bool,
    is_sqfs: bool,
    overwrite_files: bool,
    overwrite_luks_content: bool,
) -> (r: Result<OutputAction, ZksError>)
    ensures
        r is Ok <==> output_decision(exists, is_luks, is_sqfs, overwrite_files, overwrite_luks_content) is Some,
        r is Ok ==> r->Ok_0 == output_decision(exists, is_luks, is_sqfs, overwrite_files, overwrite_luks_content)->0,
        r is Err ==> (if (!overwrite_files && !overwrite_luks_content) || (overwrite_files && !is_luks && !is_sqfs) {
            r->Err_0 is OperationFailed
        } else {
            r->Err_0 is LuksError
        }),
{
    if !exists {
        return Ok(OutputAction::CreateFresh);
    }
    if !overwrite_files && !overwrite_luks_content {
        return Err(ZksError::OperationFailed(owned(
            "Output file exists. Use --overwrite-files to append, or --overwrite-luks-content to replace a LUKS container's payload.",
        )));
    }
    if overwrite_files && !is_luks && !is_sqfs {
        return Err(ZksError::OperationFailed(owned(
            "Target exists but is not a valid SquashFS or LUKS container. Cannot update.",
        )));
    }
    if overwrite_luks_content && !is_luks {
        return Err(ZksError::LuksError(owned(
            "--overwrite-luks-content requires a valid LUKS container target.",
        )));
    }
    if overwrite_luks_content {
        Ok(OutputAction::Rebuild)
    } else {
        Ok(OutputAction::Append)
    }
}

/// `mksquashfs` arguments for packing a directory into a plain image:
/// input, output, then `-no-progress` when asked, `-noappend` for a new
/// output, then the compression flags.
pub open spec fn dir_pack_args(
    input: Seq<char>,
    output: Seq<char>,
    no_progress: bool,
    output_exists: bool,
    mode: CompressionMode,
) -> Seq<Seq<char>> {
    seq![input, output] + (if no_progress { seq!["-no-progress"@] } else { Seq::empty() }) + (if !output_exists {
        seq!["-noappend"@]
    } else {
        Seq::empty()
    }) + mksquashfs_flags(mode)
}

pub fn mksquashfs_dir_args(
    input: &str,
    output: &str,
    no_progress: bool,
    output_exists: bool,
    mode: CompressionMode,
) -> (r: Vec<String>)
    ensures
        string_views(r@) == dir_pack_args(input@, output@, no_progress, output_exists, mode),
{
    let mut v: Vec<String> = Vec::new();
    v.push(owned(input));
    v.push(owned(output));
    if no_progress {
        v.push(owned("-no-progress"));
    }
    if !output_exists {
        v.push(owned("-noappend"));
    }
    let ghost before = string_views(v@);
    mode.apply_to_mksquashfs(&mut v);
    assert(string_views(v@) =~= dir_pack_args(input@, output@, no_progress, output_exists, mode));
    v
}

/// `mksquashfs` arguments for packing into an opened LUKS mapper: input,
/// device, `-no-recovery`, `-noappend` unless appending, `-no-progress`
/// when asked, then the compression flags.
pub open spec fn luks_pack_args(
    input: Seq<char>,
    device: Seq<char>,
    action: OutputAction,
    no_progress: bool,
    mode: CompressionMode,
) -> Seq<Seq<char>> {
    seq![input, device, "-no-recovery"@] + (if action != OutputAction::Append {
        seq!["-noappend"@]
    } else {
        Seq::empty()
    }) + (if no_progress { seq!["-no-progress"@] } else { Seq::empty() }) + mksquashfs_flags(mode)
}

pub fn mksquashfs_luks_args(
    input: &str,
    device: &str,
    action: OutputAction,
    no_progress: bool,
    mode: CompressionMode,
) -> (r: Vec<String>)
    ensures
        string_views(r@) == luks_pack_args(input@, device@, action, no_progress, mode),
{
    let mut v: Vec<String> = Vec::new();
    v.push(owned(input));
    v.push(owned(device));
    v.push(owned("-no-recovery"));
    if action != OutputAction::Append {
        v.push(owned("-noappend"));
    }
    if no_progress {
        v.push(owned("-no-progress"));
    }
    mode.apply_to_mksquashfs(&mut v);
    assert(string_views(v@) =~= luks_pack_args(input@, device@, action, no_progress, mode));
    v
}

/// `file`'s description of an existing output names a SquashFS image.
pub fn reports_squashfs(file_output: &str) -> (r: bool)
    ensures
        r == crate::text::contains(file_output@, "Squashfs"@),
{
    crate::text::contains_exec(&to_chars(file_output), &to_chars("Squashfs"))
}

/// The byte count that `du -sb` printed first, or 0 when there is none.
pub open spec fn du_bytes_spec(out: Seq<char>) -> nat {
    let w = crate::text::words(out);
    if w.len() > 0 && crate::text::parse_unsigned(w[0], u64::MAX as nat) is Some {
        crate::text::parse_unsigned(w[0], u64::MAX as nat)->0
    } else {
        0
    }
}

pub fn parse_du_bytes(out: &str) -> (r: u64)
    ensures
        r as nat == du_bytes_spec(out@),
{
    let w = crate::text::words_exec(&to_chars(out));
    if w.len() == 0 {
        return 0;
    }
    match crate::text::parse_unsigned_exec(&w[0], u64::MAX) {
        Some(v) => v,
        None => 0,
    }
}

/// The decompressor command for a tar archive, chosen by the suffix of its
/// lower-cased file name.
pub open spec fn decompressor_spec(lowered: Seq<char>) -> Option<Seq<char>> {
    if ends_with(lowered, ".tar"@) {
        Some("cat"@)
    } else if ends_with(lowered, ".tar.gz"@) || ends_with(lowered, ".tgz"@) {
        Some("gzip -dc"@)
    } else if ends_with(lowered, ".tar.bz2"@) || ends_with(lowered, ".tbz2"@) {
        Some("bzip2 -dc"@)
    } else if ends_with(lowered, ".tar.xz"@) || ends_with(lowered, ".txz"@) {
        Some("xz -dc"@)
    } else if ends_with(lowered, ".tar.zst"@) || ends_with(lowered, ".tzst"@) {
        Some("zstd -dc"@)
    } else if ends_with(lowered, ".tar.zip"@) {
        Some("unzip -p"@)
    } else if ends_with(lowered, ".tar.7z"@) {
        Some("7z x -so"@)
    } else if ends_with(lowered, ".tar.rar"@) {
        Some("unrar p -inul"@)
    } else {
        None
    }
}

fn ends(l: &Vec<char>, s: &str) -> (r: bool)
    ensures
        r == ends_with(l@, s@),
{
    ends_with_exec(l, &to_chars(s))
}

/// Picks the decompressor for an already lower-cased archive file name.
pub fn decompressor_for_lowered(lowered: &str) -> (r: Result<String, ZksError>)
    ensures
        r is Ok <==> decompressor_spec(lowered@) is Some,
        r is Ok ==> r->Ok_0@ == decompressor_spec(lowered@)->0,
        r is Err ==> r->Err_0 is CompressionError,
{
    let l = to_chars(lowered);
    if ends(&l, ".tar") {
        Ok(owned("cat"))
    } else if ends(&l, ".tar.gz") || ends(&l, ".tgz") {
        Ok(owned("gzip -dc"))
    } else if ends(&l, ".tar.bz2") || ends(&l, ".tbz2") {
        Ok(owned("bzip2 -dc"))
    } else if ends(&l, ".tar.xz") || ends(&l, ".txz") {
        Ok(owned("xz -dc"))
    } else if ends(&l, ".tar.zst") || ends(&l, ".tzst") {
        Ok(owned("zstd -dc"))
    } else if ends(&l, ".tar.zip") {
        Ok(owned("unzip -p"))
    } else if ends(&l, ".tar.7z") {
        Ok(owned("7z x -so"))
    } else if ends(&l, ".tar.rar") {
        Ok(owned("unrar p -inul"))
    } else {
        let mut msg = to_chars("Unsupported archive format: ");
        push_chars(&mut msg, &l);
        Err(ZksError::CompressionError(string_of(&msg)))
    }
}

/// Picks the decompressor for an archive file name, compared case-insensitively.
pub fn decompressor_for(file_name: &str) -> (r: Result<String, ZksError>)
    ensures
        r is Ok <==> decompressor_spec(lower_of(file_name@)) is Some,
        r is Ok ==> r->Ok_0@ == decompressor_spec(lower_of(file_name@))->0,
{
    let l = lowercase(file_name);
    decompressor_for_lowered(l.as_str())
}

/// The `sh -c` pipeline that repacks a tar archive into SquashFS; every
/// path is single-quoted and the pipeline fails when any stage fails.
pub open spec fn repack_pipeline(dec: Seq<char>, input: Seq<char>, flag: Seq<char>, output: Seq<char>) -> Seq<char> {
    "set -o pipefail; "@ + dec + " "@ + quoted(input) + " | tar2sqfs --quiet --no-skip --force "@
        + quote_body(flag) + " "@ + quoted(output)
}

pub fn repack_command(decompressor: &str, input: &str, compressor_flag: &str, output: &str) -> (r: String)
    ensures
        r@ == repack_pipeline(decompressor@, input@, compressor_flag@, output@),
{
    let mut out = to_chars("set -o pipefail; ");
    push_str_chars(&mut out, decompressor);
    push_str_chars(&mut out, " ");
    push_chars(&mut out, &quote_chars(&to_chars(input)));
    push_str_chars(&mut out, " | tar2sqfs --quiet --no-skip --force ");
    let fq = quote_chars(&to_chars(compressor_flag));
    let mut body: Vec<char> = Vec::new();
    let mut i: usize = 1;
    assert(fq@.len() >= 2);
    let last = fq.len() - 1;
    while i < last
        invariant
            fq@ == quoted(compressor_flag@),
            last == fq@.len() - 1,
            1 <= i <= last,
            body@ == fq@.subrange(1, i as int),
        decreases fq@.len() - i,
    {
        body.push(fq[i]);
        i = i + 1;
        assert(body@ =~= fq@.subrange(1, i as int));
    }
    assert(fq@.subrange(1, fq@.len() - 1) =~= quote_body(compressor_flag@));
    push_chars(&mut out, &body);
    push_str_chars(&mut out, " ");
    push_chars(&mut out, &quote_chars(&to_chars(output)));
    assert(out@ =~= repack_pipeline(decompressor@, input@, compressor_flag@, output@));
    string_of(&out)
}

/// Archive formats recognised by their leading bytes.
#[derive(Clone, Copy, Debug, PartialEq, Eq, Structural)]
pub enum ArchiveType {
    Tar,
    Gzip,
    Bzip2,
    Xz,
    Zstd,
    Zip,
    SevenZ,
    Rar,
    Squashfs,
    Unknown,
}

/// What `infer::get` recognises in a buffer: the MIME type and extension
/// of the matched format, if any.
pub uninterp spec fn sniffed(b: Seq<u8>) -> Option<(Seq<char>, Seq<char>)>;

/// Relies on `infer::get` with `Type::mime_type` and `Type::extension`:
/// the answer depends only on the bytes given.
#[verifier::external_body]
fn sniff(buf: &[u8]) -> (r: Option<(String, String)>)
    ensures
        match r {
            Some((m, e)) => sniffed(buf@) == Some((m@, e@)),
            None => sniffed(buf@) is None,
        },
{
    infer::get(buf).map(|k| (k.mime_type().to_string(), k.extension().to_string()))
}

/// The archive type of a detected MIME type and extension.
pub open spec fn archive_type_spec(mime: Seq<char>, ext: Seq<char>) -> ArchiveType {
    if mime == "application/x-tar"@ {
        ArchiveType::Tar
    } else if mime == "application/gzip"@ {
        ArchiveType::Gzip
    } else if mime == "application/x-bzip2"@ {
        ArchiveType::Bzip2
    } else if mime == "application/x-xz"@ {
        ArchiveType::Xz
    } else if mime == "application/zstd"@ {
        ArchiveType::Zstd
    } else if mime == "application/zip"@ {
        ArchiveType::Zip
    } else if mime == "application/x-7z-compressed"@ {
        ArchiveType::SevenZ
    } else if mime == "application/vnd.rar"@ {
        ArchiveType::Rar
    } else if ext == "sqsh"@ || crate::text::contains(mime, "squashfs"@) {
        ArchiveType::Squashfs
    } else {
        ArchiveType::Unknown
    }
}

fn same(a: &Vec<char>, s: &str) -> (r: bool)
    ensures
        r == (a@ == s@),
{
    let b = to_chars(s);
    if a.len() != b.len() {
        return false;
    }
    let mut i: usize = 0;
    while i < a.len()
        invariant
            b@ == s@,
            a@.len() == b@.len(),
            i <= a@.len(),
            forall|j: int| 0 <= j < i ==> a@[j] == b@[j],
        decreases a@.len() - i,
    {
        if a[i] != b[i] {
            assert(a@[i as int] != b@[i as int]);
            return false;
        }
        i = i + 1;
    }
    assert(a@ =~= b@);
    true
}

/// Maps a detected MIME type and extension to an archive type.
pub fn archive_type_from_mime(mime: &str, ext: &str) -> (r: ArchiveType)
    ensures
        r == archive_type_spec(mime@, ext@),
{
    let m = to_chars(mime);
    if same(&m, "application/x-tar") {
        ArchiveType::Tar
    } else if same(&m, "application/gzip") {
        ArchiveType::Gzip
    } else if same(&m, "application/x-bzip2") {
        ArchiveType::Bzip2
    } else if same(&m, "application/x-xz") {
        ArchiveType::Xz
    } else if same(&m, "application/zstd") {
        ArchiveType::Zstd
    } else if same(&m, "application/zip") {
        ArchiveType::Zip
    } else if same(&m, "application/x-7z-compressed") {
        ArchiveType::SevenZ
    } else if same(&m, "application/vnd.rar") {
        ArchiveType::Rar
    } else if same(&to_chars(ext), "sqsh") || crate::text::contains_exec(&m, &to_chars("squashfs")) {
        ArchiveType::Squashfs
    } else {
        ArchiveType::Unknown
    }
}

/// The archive type of a file, judged by its leading bytes (magic
/// numbers), not by its name.
pub fn get_file_type(header: &[u8]) -> (r: ArchiveType)
    ensures
        r == match sniffed(header@) {
            Some((m, e)) => archive_type_spec(m, e),
            None => ArchiveType::Unknown,
        },
{
    match sniff(header) {
        Some((m, e)) => archive_type_from_mime(m.as_str(), e.as_str()),
        None => ArchiveType::Unknown,
    }
}

} // verus!
