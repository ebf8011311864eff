//! Decoding the octal escapes that the kernel writes into mount tables.

use vstd::prelude::*;
use vstd::string::StringSliceAdditionalSpecFns;
use vstd::utf8::{decode_utf8, encode_utf8, valid_utf8, encode_utf8_valid_utf8, encode_utf8_decode_utf8};

verus! {

pub open spec fn is_octal(b: u8) -> bool {
    48 <= b && b <= 55
}

/// The byte that a three-digit octal escape stands for (wrapping past 255).
pub open spec fn octal_value(d1: u8, d2: u8, d3: u8) -> u8 {
    (((d1 - 48) * 64 + (d2 - 48) * 8 + (d3 - 48)) % 256) as u8
}

/// `b` with every `\` followed by three octal digits replaced by the byte
/// they denote; everything else is kept.
pub open spec fn unescape_bytes(b: Seq<u8>) -> Seq<u8>
    decreases b.len(),
{
    if b.len() == 0 {
        Seq::empty()
    } else if b[0] == 92 && b.len() >= 4 && is_octal(b[1]) && is_octal(b[2]) && is_octal(b[3]) {
        seq![octal_value(b[1], b[2], b[3])] + unescape_bytes(b.subrange(4, b.len() as int))
    } else {
        seq![b[0]] + unescape_bytes(b.drop_first())
    }
}

/// How the kernel escapes one byte of a mount path: space, tab, newline and
/// backslash become `\040`, `\011`, `\012`, `\134`.
pub open spec fn kernel_escape_byte(c: u8) -> Seq<u8> {
    if c == 32 {
        seq![92u8, 48u8, 52u8, 48u8]
    } else if c == 9 {
        seq![92u8, 48u8, 49u8, 49u8]
    } else if c == 10 {
        seq![92u8, 48u8, 49u8, 50u8]
    } else if c == 92 {
        seq![92u8, 49u8, 51u8, 52u8]
    } else {
        seq![c]
    }
}

/// The kernel's escaping of a whole mount path.
pub open spec fn kernel_escape(b: Seq<u8>) -> Seq<u8>
    decreases b.len(),
{
    if b.len() == 0 {
        Seq::empty()
    } else {
        kernel_escape_byte(b[0]) + kernel_escape(b.drop_first())
    }
}

/// Unescaping undoes the kernel's escaping of space, tab, newline and
/// backslash: it is a left inverse of it on every byte string.
pub proof fn lemma_unescape_left_inverse(b: Seq<u8>)
    ensures
        unescape_bytes(kernel_escape(b)) == b,
    decreases b.len(),
{
    if b.len() > 0 {
        let c = b[0];
        let rest = kernel_escape(b.drop_first());
        lemma_unescape_left_inverse(b.drop_first());
        let e = kernel_escape(b);
        assert(e == kernel_escape_byte(c) + rest);
        if c == 32 || c == 9 || c == 10 || c == 92 {
            assert(e.subrange(4, e.len() as int) =~= rest);
            assert(octal_value(e[1], e[2], e[3]) == c);
            assert(unescape_bytes(e) == seq![c] + unescape_bytes(rest));
        } else {
            assert(e.drop_first() =~= rest);
            assert(unescape_bytes(e) == seq![c] + unescape_bytes(rest));
        }
        assert(seq![c] + b.drop_first() =~= b);
    } else {
        assert(kernel_escape(b) =~= Seq::<u8>::empty());
        assert(b =~= Seq::<u8>::empty());
    }
}

/// For text paths: unescaping the kernel's escaping of a path's UTF-8 bytes
/// gives back valid UTF-8 that decodes to the path.
pub proof fn lemma_unescape_recovers_path(path: Seq<char>)
    ensures
        valid_utf8(unescape_bytes(kernel_escape(encode_utf8(path)))),
        decode_utf8(unescape_bytes(kernel_escape(encode_utf8(path)))) == path,
{
    lemma_unescape_left_inverse(encode_utf8(path));
    encode_utf8_valid_utf8(path);
    encode_utf8_decode_utf8(path);
}

/// What `String::from_utf8_lossy` makes of a byte string.
pub uninterp spec fn lossy_of(b: Seq<u8>) -> Seq<char>;

/// Relies on `String::from_utf8_lossy`: the result depends only on the bytes,
/// and bytes that are valid UTF-8 are decoded unchanged.
#[verifier::external_body]
fn utf8_lossy(b: &Vec<u8>) -> (r: String)
    ensures
        r@ == lossy_of(b@),
        valid_utf8(b@) ==> r@ == decode_utf8(b@),
{
    String::from_utf8_lossy(b).into_owned()
}

/// Decodes `\ooo` octal escapes in a path read from `/proc/self/mountinfo`
/// or `/proc/mounts` (for instance `\040` back to a space).
pub fn unescape_mountinfo_octal(s: &str) -> (r: String)
    ensures
        r@ == lossy_of(unescape_bytes(s.spec_bytes())),
        valid_utf8(unescape_bytes(s.spec_bytes())) ==> r@ == decode_utf8(unescape_bytes(s.spec_bytes())),
{
    let bytes = s.as_bytes();
    let n = bytes.len();
    let mut out: Vec<u8> = Vec::new();
    let mut i: usize = 0;
    assert(bytes@.subrange(0, n as int) =~= bytes@);
    assert(out@ + bytes@ =~= bytes@);
    assert(out@ + unescape_bytes(bytes@) =~= unescape_bytes(bytes@));
    while i < n
        invariant
            n == bytes@.len(),
            i <= n,
            out@ + unescape_bytes(bytes@.subrange(i as int, n as int)) == unescape_bytes(bytes@),
        decreases n - i,
    {
        let ghost rest = bytes@.subrange(i as int, n as int);
        if bytes[i] == 92 && n - i >= 4 {
            let d1 = bytes[i + 1];
            let d2 = bytes[i + 2];
            let d3 = bytes[i + 3];
            if 48 <= d1 && d1 <= 55 && 48 <= d2 && d2 <= 55 && 48 <= d3 && d3 <= 55 {
                let v: u8 = (((d1 - 48) as u32 * 64 + (d2 - 48) as u32 * 8 + (d3 - 48) as u32) % 256) as u8;
                assert(v == octal_value(rest[1], rest[2], rest[3]));
                assert(rest.subrange(4, rest.len() as int) =~= bytes@.subrange(i + 4, n as int));
                out.push(v);
                i = i + 4;
                assert(out@ + unescape_bytes(bytes@.subrange(i as int, n as int)) =~= unescape_bytes(bytes@));
                continue;
            }
        }
        assert(rest.drop_first() =~= bytes@.subrange(i + 1, n as int));
        out.push(bytes[i]);
        i = i + 1;
        assert(out@ + unescape_bytes(bytes@.subrange(i as int, n as int)) =~= unescape_bytes(bytes@));
    }
    assert(bytes@.subrange(n as int, n as int) =~= Seq::<u8>::empty());
    assert(out@ =~= unescape_bytes(bytes@));
    utf8_lossy(&out)
}

} // verus!
