//! LUKS container sizing and trimming, the tool outputs they are read
//! from, mapper naming, and generated file names.

use vstd::prelude::*;
use rand::Rng;
use crate::text::{
    contains, contains_exec, decimal, decimal_exec, lines, lines_exec, parse_unsigned,
    parse_unsigned_exec, push_chars, push_str_chars, starts_with, starts_with_exec, string_of,
    to_chars, trim, trim_exec, views_of, words, words_exec,
};

verus! {

pub const MIB: u64 = 1048576;

/// Size of the LUKS2 header.
pub const LUKS_HEADER_SIZE: u64 = 33554432;

/// Extra room left in a new container.
pub const LUKS_SAFETY_BUFFER: u64 = 134217728;

/// `x` rounded up to a multiple of `a`.
pub open spec fn align_up(x: int, a: int) -> int
    recommends
        a > 0,
{
    ((x + a - 1) / a) * a
}

/// Filesystems whose journaling or copy-on-write needs more room.
pub open spec fn heavy_fs(t: Seq<char>) -> bool {
    t == "ext2/ext3"@ || t == "ext4"@ || t == "btrfs"@ || t == "xfs"@ || t == "zfs"@ || t == "tmpfs"@
        || t == "overlay"@
}

/// Overhead percentage for the filesystem type that `stat -f -c %T` printed.
pub open spec fn overhead_percent(stat_output: Seq<char>) -> nat {
    if heavy_fs(trim(stat_output)) {
        50
    } else {
        10
    }
}

fn eq_lit(a: &Vec<char>, s: &str) -> (r: bool)
    ensures
        r == (a@ == s@),
{
    let b = to_chars(s);
    if a.len() != b.len() {
        return false;
    }
    let mut i: usize = 0;
    while i < a.len()
        invariant
            b@ == s@,
            a@.len() == b@.len(),
            i <= a@.len(),
            forall|j: int| 0 <= j < i ==> a@[j] == b@[j],
        decreases a@.len() - i,
    {
        if a[i] != b[i] {
            assert(a@[i as int] != b@[i as int]);
            return false;
        }
        i = i + 1;
    }
    assert(a@ =~= b@);
    true
}

/// Overhead percentage (50 or 10) for the output's filesystem type; an
/// empty text (the probe failed) counts as an ordinary filesystem.
pub fn fs_overhead_percentage(stat_output: &str) -> (r: u32)
    ensures
        r as nat == overhead_percent(stat_output@),
{
    let t = trim_exec(&to_chars(stat_output));
    if eq_lit(&t, "ext2/ext3") || eq_lit(&t, "ext4") || eq_lit(&t, "btrfs") || eq_lit(&t, "xfs")
        || eq_lit(&t, "zfs") || eq_lit(&t, "tmpfs") || eq_lit(&t, "overlay") {
        50
    } else {
        10
    }
}

/// The container size for `raw` input bytes: input, overhead, header and
/// safety room, rounded up to whole MiB.
pub open spec fn container_size_spec(raw: int, percent: int) -> int {
    align_up(raw + raw * percent / 100 + LUKS_HEADER_SIZE + LUKS_SAFETY_BUFFER, MIB as int)
}

/// `container_size_spec`, or `None` when it does not fit in 64 bits.
pub fn container_size(raw: u64, percent: u32) -> (r: Option<u64>)
    requires
        percent <= 100,
    ensures
        r is Some <==> container_size_spec(raw as int, percent as int) <= u64::MAX,
        r is Some ==> r->0 as int == container_size_spec(raw as int, percent as int),
{
    let q = raw / 100;
    let rm = raw % 100;
    let p = percent as u64;
    proof {
        lemma_percent_split(raw as int, p as int);
    }
    let over: u64 = q * p + (rm * p) / 100;
    assert(over as int == raw as int * percent as int / 100);
    let fixed: u64 = LUKS_HEADER_SIZE + LUKS_SAFETY_BUFFER + (MIB - 1);
    if raw > u64::MAX - over || raw + over > u64::MAX - fixed {
        proof {
            let x = raw as int + over as int + LUKS_HEADER_SIZE + LUKS_SAFETY_BUFFER;
            let m = MIB as int;
            assert(x + m - 1 > u64::MAX);
            let a = align_up(x, m);
            assert(a > x + m - 1 - m) by (nonlinear_arith)
                requires a == ((x + m - 1) / m) * m, m > 0;
            assert(a % m == 0) by (nonlinear_arith)
                requires a == ((x + m - 1) / m) * m, m > 0, x >= 0;
            assert(a > u64::MAX) by (nonlinear_arith)
                requires a > x - 1, a % m == 0, x + m - 1 > u64::MAX, m == 1048576, x >= 0;
        }
        return None;
    }
    let total = raw + over + fixed;
    let r = total / MIB * MIB;
    proof {
        let x = raw as int + over as int + LUKS_HEADER_SIZE + LUKS_SAFETY_BUFFER;
        assert(total == x + MIB - 1);
        assert(r <= total) by (nonlinear_arith)
            requires r == total / MIB * MIB;
    }
    Some(r)
}

proof fn lemma_percent_split(raw: int, p: int)
    requires
        0 <= raw,
        0 <= p <= 100,
    ensures
        (raw / 100) * p <= raw,
        (raw % 100) * p < 10000,
        (raw / 100) * p + ((raw % 100) * p) / 100 == raw * p / 100,
        (raw / 100) * p + ((raw % 100) * p) / 100 <= raw,
{
    let q = raw / 100;
    let r = raw % 100;
    assert(raw == 100 * q + r && 0 <= r < 100) by (nonlinear_arith)
        requires q == raw / 100, r == raw % 100, raw >= 0;
    assert(q * p <= q * 100) by (nonlinear_arith)
        requires 0 <= p <= 100, q >= 0;
    assert(r * p < 10000) by (nonlinear_arith)
        requires 0 <= r < 100, 0 <= p <= 100;
    assert(raw * p == 100 * (q * p) + r * p) by (nonlinear_arith)
        requires raw == 100 * q + r;
    assert((100 * (q * p) + r * p) / 100 == q * p + (r * p) / 100) by (nonlinear_arith)
        requires q * p >= 0, r * p >= 0;
    assert((r * p) / 100 <= r) by (nonlinear_arith)
        requires 0 <= r, 0 <= p <= 100;
}

/// Number of 1 MiB blocks written by the zero-fill fallback for a container.
pub fn zero_fill_blocks(size: u64) -> (r: u64)
    ensures
        r as nat == size as nat / MIB as nat + 1,
{
    size / MIB + 1
}

/// Size to trim a packed container to: inner filesystem, payload offset and
/// 1 MiB margin, rounded up to 4 KiB. `None` without a known offset or when
/// the sum does not fit in 64 bits.
pub open spec fn trim_size_spec(fs_bytes: int, offset: int) -> Option<int> {
    if offset == 0 {
        None
    } else {
        let a = align_up(fs_bytes + offset + MIB, 4096);
        if a <= u64::MAX {
            Some(a)
        } else {
            None
        }
    }
}

pub fn trim_size(fs_bytes: u64, offset: u64) -> (r: Option<u64>)
    ensures
        r is Some <==> trim_size_spec(fs_bytes as int, offset as int) is Some,
        r is Some ==> r->0 as int == trim_size_spec(fs_bytes as int, offset as int)->0,
{
    if offset == 0 {
        return None;
    }
    if fs_bytes > u64::MAX - offset || fs_bytes + offset > u64::MAX - MIB - 4095 {
        proof {
            let x = fs_bytes as int + offset as int + MIB;
            let a = align_up(x, 4096);
            assert(a > x - 1 && a % 4096 == 0) by (nonlinear_arith)
                requires a == ((x + 4095) / 4096) * 4096, x >= 0;
            assert(a > u64::MAX) by (nonlinear_arith)
                requires a > x - 1, a % 4096 == 0, x + 4095 > u64::MAX, x >= 0;
        }
        return None;
    }
    let t = fs_bytes + offset + MIB + 4095;
    let a = t / 4096 * 4096;
    proof {
        assert(a <= t) by (nonlinear_arith)
            requires a == t / 4096 * 4096;
    }
    Some(a)
}

/// The inner filesystem size reported by `unsquashfs -s`: the first line
/// holding `Filesystem size` and ` bytes ` whose fourth field is `bytes`
/// and whose third field is a whole number.
pub open spec fn fs_size_from_lines(ls: Seq<Seq<char>>) -> Option<nat>
    decreases ls.len(),
{
    if ls.len() == 0 {
        None
    } else {
        let l = ls[0];
        let w = words(l);
        if contains(l, "Filesystem size"@) && contains(l, " bytes "@) && w.len() >= 4 && w[3] == "bytes"@
            && parse_unsigned(w[2], u64::MAX as nat) is Some {
            parse_unsigned(w[2], u64::MAX as nat)
        } else {
            fs_size_from_lines(ls.drop_first())
        }
    }
}

pub fn parse_unsquashfs_size(stdout: &str) -> (r: Option<u64>)
    ensures
        r is Some <==> fs_size_from_lines(lines(stdout@)) is Some,
        r is Some ==> r->0 as nat == fs_size_from_lines(lines(stdout@))->0,
{
    let ls = lines_exec(&to_chars(stdout));
    let k1 = to_chars("Filesystem size");
    let k2 = to_chars(" bytes ");
    let mut i: usize = 0;
    assert(views_of(ls@).subrange(0, ls@.len() as int) =~= views_of(ls@));
    while i < ls.len()
        invariant
            k1@ == "Filesystem size"@,
            k2@ == " bytes "@,
            i <= ls@.len(),
            views_of(ls@) == lines(stdout@),
            fs_size_from_lines(views_of(ls@).subrange(i as int, ls@.len() as int)) == fs_size_from_lines(lines(stdout@)),
        decreases ls@.len() - i,
    {
        let l = &ls[i];
        let ghost rest = views_of(ls@).subrange(i as int, ls@.len() as int);
        assert(rest[0] == l@);
        assert(rest.drop_first() =~= views_of(ls@).subrange(i + 1, ls@.len() as int));
        if contains_exec(l, &k1) && contains_exec(l, &k2) {
            let w = words_exec(l);
            if w.len() >= 4 && eq_lit(&w[3], "bytes") {
                assert(w@[3]@ == words(l@)[3]);
                match parse_unsigned_exec(&w[2], u64::MAX) {
                    Some(v) => {
                        return Some(v);
                    },
                    None => {},
                }
            }
        }
        i = i + 1;
    }
    None
}

/// The payload offset in bytes that `cryptsetup luksDump` reports: the
/// first LUKS2 `offset: N [bytes]` line, or LUKS1 `Payload offset: S`
/// sectors of 512 bytes, whichever comes first; 0 when there is none.
pub open spec fn luks_offset_from_lines(ls: Seq<Seq<char>>) -> nat
    decreases ls.len(),
{
    if ls.len() == 0 {
        0
    } else {
        let t = trim(ls[0]);
        let w = words(ls[0]);
        if starts_with(t, "offset:"@) && contains(ls[0], "bytes"@) && w.len() >= 2 && parse_unsigned(
            w[1],
            u64::MAX as nat,
        ) is Some {
            parse_unsigned(w[1], u64::MAX as nat)->0
        } else if starts_with(t, "Payload offset:"@) && w.len() >= 3 && parse_unsigned(
            w[2],
            (u64::MAX / 512) as nat,
        ) is Some {
            parse_unsigned(w[2], (u64::MAX / 512) as nat)->0 * 512
        } else {
            luks_offset_from_lines(ls.drop_first())
        }
    }
}

pub fn parse_luks_offset(dump: &str) -> (r: u64)
    ensures
        r as nat == luks_offset_from_lines(lines(dump@)),
{
    let ls = lines_exec(&to_chars(dump));
    let k1 = to_chars("offset:");
    let k2 = to_chars("bytes");
    let k3 = to_chars("Payload offset:");
    let mut i: usize = 0;
    assert(views_of(ls@).subrange(0, ls@.len() as int) =~= views_of(ls@));
    while i < ls.len()
        invariant
            k1@ == "offset:"@,
            k2@ == "bytes"@,
            k3@ == "Payload offset:"@,
            i <= ls@.len(),
            views_of(ls@) == lines(dump@),
            luks_offset_from_lines(views_of(ls@).subrange(i as int, ls@.len() as int)) == luks_offset_from_lines(lines(dump@)),
        decreases ls@.len() - i,
    {
        let l = &ls[i];
        let ghost rest = views_of(ls@).subrange(i as int, ls@.len() as int);
        assert(rest[0] == l@);
        assert(rest.drop_first() =~= views_of(ls@).subrange(i + 1, ls@.len() as int));
        let t = trim_exec(l);
        let w = words_exec(l);
        if starts_with_exec(&t, &k1) && contains_exec(l, &k2) && w.len() >= 2 {
            match parse_unsigned_exec(&w[1], u64::MAX) {
                Some(v) => {
                    return v;
                },
                None => {},
            }
        }
        if starts_with_exec(&t, &k3) && w.len() >= 3 {
            match parse_unsigned_exec(&w[2], u64::MAX / 512) {
                Some(v) => {
                    return v * 512;
                },
                None => {},
            }
        }
        i = i + 1;
    }
    0
}

/// Delay before closing-attempt `attempt + 1` of a busy mapper, in ms.
pub open spec fn close_retry_delay_spec(attempt: nat) -> nat {
    if 100 * (attempt + 1) < 500 {
        100 * (attempt + 1)
    } else {
        500
    }
}

/// Attempts made to close a mapper before giving up.
pub const CLOSE_ATTEMPTS: u32 = 10;

pub fn close_retry_delay_ms(attempt: u32) -> (r: u64)
    ensures
        r as nat == close_retry_delay_spec(attempt as nat),
{
    if attempt >= 4 {
        500
    } else {
        100 * (attempt as u64 + 1)
    }
}

pub open spec fn mapper_char_ok(c: char) -> bool {
    ('a' <= c && c <= 'z') || ('A' <= c && c <= 'Z') || ('0' <= c && c <= '9') || c == '_'
}

/// Every character outside `[A-Za-z0-9_]` replaced with `_`.
pub open spec fn sanitize(s: Seq<char>) -> Seq<char> {
    s.map_values(|c: char| if mapper_char_ok(c) { c } else { '_' })
}

/// The mapper name of an image: `sq_` and its sanitized file name.
pub open spec fn mapper_base(basename: Seq<char>) -> Seq<char> {
    "sq_"@ + sanitize(basename)
}

pub fn mapper_base_name(image_basename: &str) -> (r: String)
    ensures
        r@ == mapper_base(image_basename@),
{
    let s = to_chars(image_basename);
    let mut out = to_chars("sq_");
    let ghost head = out@;
    let mut i: usize = 0;
    while i < s.len()
        invariant
            head == "sq_"@,
            i <= s@.len(),
            out@ == head + sanitize(s@.subrange(0, i as int)),
        decreases s@.len() - i,
    {
        let c = s[i];
        let ok = ('a' <= c && c <= 'z') || ('A' <= c && c <= 'Z') || ('0' <= c && c <= '9') || c == '_';
        out.push(if ok { c } else { '_' });
        i = i + 1;
        assert(out@ =~= head + sanitize(s@.subrange(0, i as int)));
    }
    assert(s@.subrange(0, i as int) =~= s@);
    string_of(&out)
}

/// Candidate number `k` for a mapper name: the base itself, then `_2` to `_99`.
pub open spec fn mapper_candidate(base: Seq<char>, k: nat) -> Seq<char> {
    if k == 0 {
        base
    } else {
        base + "_"@ + decimal(k + 1)
    }
}

/// Number of suffixed candidates tried before the time-based fallback.
pub const MAPPER_CANDIDATES: usize = 99;

/// The first candidate not marked in use (`in_use[k]` for candidate `k`),
/// or, when the first 99 are all in use, `base_<seconds>_<random>`.
pub open spec fn pick_mapper_spec(base: Seq<char>, in_use: Seq<bool>, secs: nat, rnd: nat) -> Seq<char> {
    if exists|k: int| 0 <= k < in_use.len() && k < MAPPER_CANDIDATES && !in_use[k] {
        let k = choose|k: int|
            0 <= k < in_use.len() && k < MAPPER_CANDIDATES && !in_use[k] && (forall|j: int|
                0 <= j < k ==> in_use[j]);
        mapper_candidate(base, k as nat)
    } else {
        base + "_"@ + decimal(secs) + "_"@ + decimal(rnd)
    }
}

/// Chooses a mapper name that is not in use, by the probing results of the
/// candidates in order.
pub fn pick_mapper_name(base: &str, in_use: &Vec<bool>, secs: u64, rnd: u32) -> (r: String)
    requires
        in_use@.len() >= MAPPER_CANDIDATES,
    ensures
        r@ == pick_mapper_spec(base@, in_use@, secs as nat, rnd as nat),
{
    let mut k: usize = 0;
    while k < MAPPER_CANDIDATES
        invariant
            k <= MAPPER_CANDIDATES <= in_use@.len(),
            forall|j: int| 0 <= j < k ==> in_use@[j],
        decreases MAPPER_CANDIDATES - k,
    {
        if !in_use[k] {
            let mut out = to_chars(base);
            if k > 0 {
                push_str_chars(&mut out, "_");
                push_chars(&mut out, &decimal_exec(k as u64 + 1));
            }
            proof {
                let kk = k as int;
                assert(0 <= kk < in_use@.len() && kk < MAPPER_CANDIDATES && !in_use@[kk]);
                let c = choose|c: int|
                    0 <= c < in_use@.len() && c < MAPPER_CANDIDATES && !in_use@[c] && (forall|j: int|
                        0 <= j < c ==> in_use@[j]);
                assert(0 <= kk < in_use@.len() && kk < MAPPER_CANDIDATES && !in_use@[kk] && (forall|j: int|
                        0 <= j < kk ==> in_use@[j]));
                if c < kk {
                    assert(in_use@[c]);
                }
                if c > kk {
                    assert(in_use@[kk]);
                }
                assert(c == kk);
            }
            assert(out@ =~= mapper_candidate(base@, k as nat));
            return string_of(&out);
        }
        k = k + 1;
    }
    let mut out = to_chars(base);
    push_str_chars(&mut out, "_");
    push_chars(&mut out, &decimal_exec(secs));
    push_str_chars(&mut out, "_");
    push_chars(&mut out, &decimal_exec(rnd as u64));
    assert(!exists|k: int| 0 <= k < in_use@.len() && k < MAPPER_CANDIDATES && !in_use@[k]);
    assert(out@ =~= pick_mapper_spec(base@, in_use@, secs as nat, rnd as nat));
    string_of(&out)
}

/// Relies on `rand::Rng::random_range` over `lo..hi`: the drawn number lies
/// in that half-open range (the range is non-empty, so it does not panic).
#[verifier::external_body]
fn random_below(lo: u32, hi: u32) -> (r: u32)
    requires
        lo < hi,
    ensures
        lo <= r < hi,
{
    rand::rng().random_range(lo..hi)
}

/// `<prefix>_<seconds>_<rnd>.<ext>`, `ext` being `sqfs_luks.img` for an
/// encrypted archive and `sqfs` otherwise.
pub open spec fn archive_file_name_spec(prefix: Seq<char>, secs: nat, rnd: nat, encrypt: bool) -> Seq<char> {
    prefix + "_"@ + decimal(secs) + "_"@ + decimal(rnd) + "."@ + (if encrypt {
        "sqfs_luks.img"@
    } else {
        "sqfs"@
    })
}

pub fn archive_file_name(prefix: &str, secs: u64, rnd: u32, encrypt: bool) -> (r: String)
    ensures
        r@ == archive_file_name_spec(prefix@, secs as nat, rnd as nat, encrypt),
{
    let mut out = to_chars(prefix);
    push_str_chars(&mut out, "_");
    push_chars(&mut out, &decimal_exec(secs));
    push_str_chars(&mut out, "_");
    push_chars(&mut out, &decimal_exec(rnd as u64));
    push_str_chars(&mut out, ".");
    if encrypt {
        push_str_chars(&mut out, "sqfs_luks.img");
    } else {
        push_str_chars(&mut out, "sqfs");
    }
    assert(out@ =~= archive_file_name_spec(prefix@, secs as nat, rnd as nat, encrypt));
    string_of(&out)
}

/// An archive name for an output directory, with a fresh six-digit
/// random part.
pub fn auto_archive_name(prefix: &str, secs: u64, encrypt: bool) -> (r: String)
    ensures
        exists|rnd: nat|
            100000 <= rnd < 999999 && r@ == archive_file_name_spec(prefix@, secs as nat, rnd, encrypt),
{
    let rnd = random_below(100000, 999999);
    archive_file_name(prefix, secs, rnd, encrypt)
}

/// `mount_<prefix>_<seconds>_<rnd>`.
pub open spec fn mount_dir_name_spec(prefix: Seq<char>, secs: nat, rnd: nat) -> Seq<char> {
    "mount_"@ + prefix + "_"@ + decimal(secs) + "_"@ + decimal(rnd)
}

pub fn mount_dir_name(prefix: &str, secs: u64, rnd: u32) -> (r: String)
    ensures
        r@ == mount_dir_name_spec(prefix@, secs as nat, rnd as nat),
{
    let mut out = to_chars("mount_");
    push_str_chars(&mut out, prefix);
    push_str_chars(&mut out, "_");
    push_chars(&mut out, &decimal_exec(secs));
    push_str_chars(&mut out, "_");
    push_chars(&mut out, &decimal_exec(rnd as u64));
    assert(out@ =~= mount_dir_name_spec(prefix@, secs as nat, rnd as nat));
    string_of(&out)
}

/// A mount-point name for an image, with a fresh six-digit random part.
pub fn auto_mount_dir_name(prefix: &str, secs: u64) -> (r: String)
    ensures
        exists|rnd: nat| 100000 <= rnd < 999999 && r@ == mount_dir_name_spec(prefix@, secs as nat, rnd),
{
    let rnd = random_below(100000, 999999);
    mount_dir_name(prefix, secs, rnd)
}

/// A mapper name for an image file, given which candidates are in use; the
/// fallback's random part has four digits.
pub fn generate_mapper_name(image_basename: &str, in_use: &Vec<bool>, secs: u64) -> (r: String)
    requires
        in_use@.len() >= MAPPER_CANDIDATES,
    ensures
        exists|rnd: nat|
            1000 <= rnd < 9999 && r@ == pick_mapper_spec(mapper_base(image_basename@), in_use@, secs as nat, rnd),
{
    let base = mapper_base_name(image_basename);
    let rnd = random_below(1000, 9999);
    pick_mapper_name(base.as_str(), in_use, secs, rnd)
}

} // verus!
