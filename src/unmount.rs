//! Finding where an image is mounted: FUSE readers found through their
//! command lines, and LUKS mappers found through the mount table.

use vstd::prelude::*;
use crate::mountinfo::unescape_mountinfo_octal;
use crate::text::{
    contains, contains_exec, owned, starts_with, starts_with_exec, string_of, string_views, to_chars,
    trim, trim_exec, views_of, words, words_exec,
};

verus! {

/// Scanning state of `pieces`: finished pieces and the one in progress.
pub open spec fn pieces_fold(s: Seq<char>, sep: char) -> (Seq<Seq<char>>, Seq<char>)
    decreases s.len(),
{
    if s.len() == 0 {
        (Seq::empty(), Seq::empty())
    } else {
        let (done, cur) = pieces_fold(s.drop_last(), sep);
        if s.last() == sep {
            (done.push(cur), Seq::empty())
        } else {
            (done, cur.push(s.last()))
        }
    }
}

/// The `sep`-separated pieces of `s`, as `str::split` yields them.
pub open spec fn pieces(s: Seq<char>, sep: char) -> Seq<Seq<char>> {
    let (done, cur) = pieces_fold(s, sep);
    done.push(cur)
}

/// The arguments of a `/proc/<pid>/cmdline` text (NUL-separated).
pub fn cmdline_args(cmdline: &str) -> (r: Vec<String>)
    ensures
        string_views(r@) == pieces(cmdline@, '\0'),
{
    let s = to_chars(cmdline);
    let mut done: Vec<String> = Vec::new();
    let mut cur: Vec<char> = Vec::new();
    let mut i: usize = 0;
    while i < s.len()
        invariant
            s@ == cmdline@,
            i <= s@.len(),
            (string_views(done@), cur@) == pieces_fold(s@.subrange(0, i as int), '\0'),
        decreases s@.len() - i,
    {
        let c = s[i];
        assert(s@.subrange(0, i + 1).drop_last() =~= s@.subrange(0, i as int));
        if c == '\0' {
            let piece = string_of(&cur);
            let ghost before = string_views(done@);
            done.push(piece);
            assert(string_views(done@) =~= before.push(cur@));
            cur = Vec::new();
        } else {
            cur.push(c);
        }
        i = i + 1;
    }
    assert(s@.subrange(0, i as int) =~= s@);
    let piece = string_of(&cur);
    let ghost before = string_views(done@);
    done.push(piece);
    assert(string_views(done@) =~= before.push(cur@));
    done
}

pub open spec fn is_option_like(a: Seq<char>) -> bool {
    a.len() > 0 && a[0] == '-'
}

/// A FUSE reader's command line (`squashfuse [options] IMAGE MOUNTPOINT`):
/// every argument that follows an argument naming the image (`names_image`
/// says which do), when neither is empty nor an option.
pub open spec fn fuse_mount_points_spec(args: Seq<Seq<char>>, names_image: Seq<bool>) -> Seq<Seq<char>>
    decreases args.len(),
{
    if args.len() < 2 {
        Seq::empty()
    } else {
        let k = args.len() - 2;
        let prev = fuse_mount_points_spec(args.drop_last(), names_image);
        if args[k].len() > 0 && !is_option_like(args[k]) && k < names_image.len() && names_image[k]
            && args[k + 1].len() > 0 && !is_option_like(args[k + 1]) {
            prev.push(args[k + 1])
        } else {
            prev
        }
    }
}

/// The program is a FUSE SquashFS reader.
pub fn is_squashfuse(args: &Vec<String>) -> (r: bool)
    ensures
        r == (args@.len() > 0 && contains(args@[0]@, "squashfuse"@)),
{
    args.len() > 0 && contains_exec(&to_chars(args[0].as_str()), &to_chars("squashfuse"))
}

/// The mount points that a FUSE reader's arguments name for the image.
pub fn fuse_mount_points(args: &Vec<String>, names_image: &Vec<bool>) -> (r: Vec<String>)
    ensures
        string_views(r@) == fuse_mount_points_spec(string_views(args@), names_image@),
{
    let mut out: Vec<String> = Vec::new();
    let ghost av = string_views(args@);
    let mut i: usize = 1;
    if args.len() < 2 {
        return out;
    }
    assert(av.subrange(0, 1).len() < 2);
    while i < args.len()
        invariant
            av == string_views(args@),
            1 <= i <= args@.len(),
            string_views(out@) == fuse_mount_points_spec(av.subrange(0, i as int), names_image@),
        decreases args@.len() - i,
    {
        let prev = to_chars(args[i - 1].as_str());
        let next = to_chars(args[i].as_str());
        let ghost sub = av.subrange(0, i + 1);
        assert(sub.drop_last() =~= av.subrange(0, i as int));
        assert(sub[i - 1] == prev@ && sub[i as int] == next@);
        if prev.len() > 0 && prev[0] != '-' && i - 1 < names_image.len() && names_image[i - 1]
            && next.len() > 0 && next[0] != '-' {
            let ghost before = string_views(out@);
            let p = owned(args[i].as_str());
            out.push(p);
            assert(string_views(out@) =~= before.push(next@));
        }
        i = i + 1;
    }
    assert(av.subrange(0, i as int) =~= av);
    out
}

/// The loop device of one `losetup -j` line: the text before the first `:`, trimmed.
pub open spec fn loop_device_spec(line: Seq<char>) -> Seq<char> {
    trim(pieces(line, ':')[0])
}

pub fn loop_device_of(line: &str) -> (r: String)
    ensures
        r@ == loop_device_spec(line@),
{
    let s = to_chars(line);
    let mut head: Vec<char> = Vec::new();
    let mut i: usize = 0;
    while i < s.len() && s[i] != ':'
        invariant
            s@ == line@,
            i <= s@.len(),
            head@ == s@.subrange(0, i as int),
            forall|j: int| 0 <= j < i ==> s@[j] != ':',
            pieces_fold(s@.subrange(0, i as int), ':') == (Seq::<Seq<char>>::empty(), head@),
        decreases s@.len() - i,
    {
        assert(s@.subrange(0, i + 1).drop_last() =~= s@.subrange(0, i as int));
        head.push(s[i]);
        i = i + 1;
    }
    proof { lemma_first_piece(s@, i as int, ':'); }
    string_of(&trim_exec(&head))
}

/// Once the first separator (or the end) is reached at `i`, the first
/// piece is what came before it.
proof fn lemma_first_piece(s: Seq<char>, i: int, sep: char)
    requires
        0 <= i <= s.len(),
        i == s.len() || s[i] == sep,
        pieces_fold(s.subrange(0, i), sep).0.len() == 0,
    ensures
        pieces(s, sep)[0] == pieces_fold(s.subrange(0, i), sep).1,
    decreases s.len() - i,
{
    let t = s.subrange(0, i);
    if i == s.len() {
        assert(t =~= s);
    } else {
        let u = s.subrange(0, i + 1);
        assert(u.drop_last() =~= t);
        lemma_pieces_prefix_keeps_first(s, i + 1, sep);
    }
}

/// After the first piece is finished, later characters do not change it.
proof fn lemma_pieces_prefix_keeps_first(s: Seq<char>, k: int, sep: char)
    requires
        1 <= k <= s.len(),
        pieces_fold(s.subrange(0, k), sep).0.len() >= 1,
    ensures
        pieces(s, sep)[0] == pieces_fold(s.subrange(0, k), sep).0[0],
    decreases s.len() - k,
{
    if k == s.len() {
        assert(s.subrange(0, k) =~= s);
    } else {
        let u = s.subrange(0, k + 1);
        assert(u.drop_last() =~= s.subrange(0, k));
        lemma_pieces_prefix_keeps_first(s, k + 1, sep);
    }
}

/// `dmsetup deps -o devname` output mentions the loop device (without `/dev/`).
pub open spec fn deps_mention_spec(deps: Seq<char>, loop_dev: Seq<char>) -> bool {
    let name = if starts_with(loop_dev, "/dev/"@) { loop_dev.subrange(5, loop_dev.len() as int) } else { loop_dev };
    contains(deps, name)
}

pub fn deps_mention(deps: &str, loop_dev: &str) -> (r: bool)
    ensures
        r == deps_mention_spec(deps@, loop_dev@),
{
    let l = to_chars(loop_dev);
    proof { reveal_strlit("/dev/"); }
    let name: Vec<char> = if starts_with_exec(&l, &to_chars("/dev/")) {
        let mut n: Vec<char> = Vec::new();
        let mut i: usize = 5;
        while i < l.len()
            invariant
                5 <= i <= l@.len(),
                n@ == l@.subrange(5, i as int),
            decreases l@.len() - i,
        {
            n.push(l[i]);
            i = i + 1;
            assert(n@ =~= l@.subrange(5, i as int));
        }
        n
    } else {
        l
    };
    contains_exec(&to_chars(deps), &name)
}

/// A `/proc/mounts` line whose source is one of our LUKS mappers
/// (`/dev/mapper/sq_...`): the mapper's name and the decoded mount point.
pub open spec fn sq_mount_spec(line: Seq<char>) -> Option<(Seq<char>, Seq<char>)> {
    let w = words(line);
    if w.len() >= 2 && starts_with(w[0], "/dev/mapper/sq_"@) {
        Some((w[0].subrange(12, w[0].len() as int), w[1]))
    } else {
        None
    }
}

/// Reads one mount-table line; the mount point comes back with the
/// kernel's octal escapes decoded.
pub fn sq_mapper_mount(line: &str) -> (r: Option<(String, String)>)
    ensures
        r is Some <==> sq_mount_spec(line@) is Some,
        r is Some ==> ({
            let (name, mount_point) = r->0;
            let (spec_name, spec_point) = sq_mount_spec(line@)->0;
            &&& name@ == spec_name
            &&& mount_point@ == crate::mountinfo::lossy_of(
                crate::mountinfo::unescape_bytes(vstd::utf8::encode_utf8(spec_point)),
            )
        }),
{
    let w = words_exec(&to_chars(line));
    if w.len() < 2 || !starts_with_exec(&w[0], &to_chars("/dev/mapper/sq_")) {
        return None;
    }
    proof { reveal_strlit("/dev/mapper/sq_"); }
    let src = &w[0];
    let mut name: Vec<char> = Vec::new();
    let mut i: usize = 12;
    while i < src.len()
        invariant
            12 <= i <= src@.len(),
            name@ == src@.subrange(12, i as int),
        decreases src@.len() - i,
    {
        name.push(src[i]);
        i = i + 1;
        assert(name@ =~= src@.subrange(12, i as int));
    }
    let mp = string_of(&w[1]);
    let decoded = unescape_mountinfo_octal(mp.as_str());
    Some((string_of(&name), decoded))
}

} // verus!

verus! {

/// How a mount point is unmounted.
#[derive(Clone, Debug)]
pub enum UnmountMethod {
    /// One of our LUKS mappers: `umount`, then close the named mapper.
    LuksMapper(String),
    /// A FUSE reader: `fusermount -u`.
    Fuse,
}

/// The method for a mount point whose source device `findmnt` reported
/// (if it did): our mappers are `/dev/mapper/sq_...`.
pub fn unmount_method(source: Option<&str>) -> (r: UnmountMethod)
    ensures
        match source {
            Some(s) => if starts_with(s@, "/dev/mapper/sq_"@) {
                r is LuksMapper && r->LuksMapper_0@ == s@.subrange(12, s@.len() as int)
            } else {
                r is Fuse
            },
            None => r is Fuse,
        },
{
    match source {
        Some(s) => {
            let v = to_chars(s);
            if starts_with_exec(&v, &to_chars("/dev/mapper/sq_")) {
                proof { reveal_strlit("/dev/mapper/sq_"); }
                let mut name: Vec<char> = Vec::new();
                let mut i: usize = 12;
                while i < v.len()
                    invariant
                        12 <= i <= v@.len(),
                        name@ == v@.subrange(12, i as int),
                    decreases v@.len() - i,
                {
                    name.push(v[i]);
                    i = i + 1;
                    assert(name@ =~= v@.subrange(12, i as int));
                }
                UnmountMethod::LuksMapper(string_of(&name))
            } else {
                UnmountMethod::Fuse
            }
        },
        None => UnmountMethod::Fuse,
    }
}

/// The steps of mounting a LUKS image.
#[derive(Clone, Copy, Debug, PartialEq, Eq, Structural)]
pub enum MountStep {
    /// Mount the mapper that already exists.
    MountExisting,
    /// Close that mapper: it is stale.
    CloseStale,
    /// Open the container (asks for the passphrase).
    Open,
    /// Mount the freshly opened mapper.
    MountOpened,
    /// Close the mapper because mounting it failed.
    CloseAfterFailure,
    /// Mounted.
    Done,
    /// Opening failed.
    OpenFailed,
    /// Mounting failed (the mapper was closed again).
    MountFailed,
}

/// The first step: reuse an existing mapper if there is one.
pub fn first_mount_step(mapper_exists: bool) -> (r: MountStep)
    ensures
        r == (if mapper_exists { MountStep::MountExisting } else { MountStep::Open }),
{
    if mapper_exists { MountStep::MountExisting } else { MountStep::Open }
}

pub open spec fn next_mount_step_spec(step: MountStep, ok: bool) -> MountStep {
    match step {
        MountStep::MountExisting => if ok { MountStep::Done } else { MountStep::CloseStale },
        MountStep::CloseStale => MountStep::Open,
        MountStep::Open => if ok { MountStep::MountOpened } else { MountStep::OpenFailed },
        MountStep::MountOpened => if ok { MountStep::Done } else { MountStep::CloseAfterFailure },
        MountStep::CloseAfterFailure => MountStep::MountFailed,
        other => other,
    }
}

/// The step after `step`, given whether it succeeded. A mapper this run
/// opened is closed again whenever mounting it fails.
pub fn next_mount_step(step: MountStep, ok: bool) -> (r: MountStep)
    ensures
        r == next_mount_step_spec(step, ok),
        step == MountStep::MountOpened && !ok ==> r == MountStep::CloseAfterFailure,
{
    match step {
        MountStep::MountExisting => if ok { MountStep::Done } else { MountStep::CloseStale },
        MountStep::CloseStale => MountStep::Open,
        MountStep::Open => if ok { MountStep::MountOpened } else { MountStep::OpenFailed },
        MountStep::MountOpened => if ok { MountStep::Done } else { MountStep::CloseAfterFailure },
        MountStep::CloseAfterFailure => MountStep::MountFailed,
        other => other,
    }
}

} // verus!
