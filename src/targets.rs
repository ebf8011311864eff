//! Resolving what to freeze and where: positional arguments, list files,
//! `~` expansion, and output names inside a directory.

use vstd::prelude::*;
use crate::error::ZksError;
use crate::luks::{archive_file_name_spec, auto_archive_name};
use crate::paths::{join_path, join_path_exec};
use crate::text::{
    lines, lines_exec, owned, starts_with, string_of, string_views, to_chars, trim, trim_exec,
    views_of,
};

verus! {

/// `~` alone becomes `home`, `~/rest` becomes `home` joined with `rest`;
/// anything else, or any path when `home` is unknown, stays as it is.
pub open spec fn expand_tilde_spec(p: Seq<char>, home: Option<Seq<char>>) -> Seq<char> {
    match home {
        None => p,
        Some(h) => if p == "~"@ {
            h
        } else if starts_with(p, "~/"@) {
            join_path(h, p.subrange(2, p.len() as int))
        } else {
            p
        },
    }
}

pub open spec fn opt_view_str(o: Option<&str>) -> Option<Seq<char>> {
    match o {
        Some(s) => Some(s@),
        None => None,
    }
}

pub fn expand_tilde(path: &str, home: Option<&str>) -> (r: String)
    ensures
        r@ == expand_tilde_spec(path@, opt_view_str(home)),
{
    let p = to_chars(path);
    proof {
        reveal_strlit("~");
        reveal_strlit("~/");
    }
    match home {
        None => owned(path),
        Some(h) => {
            if p.len() == 1 && p[0] == '~' {
                assert(p@ =~= "~"@);
                owned(h)
            } else if p.len() >= 2 && p[0] == '~' && p[1] == '/' {
                assert(p@.subrange(0, 2) =~= "~/"@);
                assert(p@ != "~"@);
                let mut rest: Vec<char> = Vec::new();
                let mut i: usize = 2;
                while i < p.len()
                    invariant
                        2 <= i <= p@.len(),
                        rest@ == p@.subrange(2, i as int),
                    decreases p@.len() - i,
                {
                    rest.push(p[i]);
                    i = i + 1;
                    assert(rest@ =~= p@.subrange(2, i as int));
                }
                string_of(&join_path_exec(&to_chars(h), &rest))
            } else {
                assert(p@ != "~"@) by {
                    if p@ == "~"@ { assert(p@.len() == 1 && p@[0] == '~'); }
                }
                assert(!starts_with(p@, "~/"@)) by {
                    if starts_with(p@, "~/"@) {
                        assert(p@.subrange(0, 2)[0] == '~' && p@.subrange(0, 2)[1] == '/');
                    }
                }
                owned(path)
            }
        },
    }
}

/// The targets a list file names: each trimmed line that is neither empty
/// nor a `#` comment, with `~` expanded.
pub open spec fn list_targets(ls: Seq<Seq<char>>, home: Option<Seq<char>>) -> Seq<Seq<char>>
    decreases ls.len(),
{
    if ls.len() == 0 {
        Seq::empty()
    } else {
        let t = trim(ls.last());
        let prev = list_targets(ls.drop_last(), home);
        if t.len() > 0 && t[0] != '#' {
            prev.push(expand_tilde_spec(t, home))
        } else {
            prev
        }
    }
}

/// Splits the positional arguments of a freeze into targets and the
/// output (the last one), adding the targets of a list file when one was
/// read. Fails when there is no output or no target.
pub fn resolve_freeze_args(args: &Vec<String>, list_file: Option<&str>, home: Option<&str>) -> (r: Result<(Vec<String>, String), ZksError>)
    ensures
        ({
            let a = string_views(args@);
            let extra = match list_file {
                Some(c) => list_targets(lines(c@), opt_view_str(home)),
                None => Seq::empty(),
            };
            let targets = if a.len() > 0 { a.drop_last() + extra } else { extra };
            &&& r is Ok <==> (a.len() > 0 && targets.len() > 0)
            &&& r is Ok ==> string_views(r->Ok_0.0@) == targets && r->Ok_0.1@ == a.last()
            &&& r is Err ==> r->Err_0 is MissingTarget
        }),
{
    let n = args.len();
    if n == 0 {
        return Err(ZksError::MissingTarget(owned("Destination archive path is required")));
    }
    let ghost a = string_views(args@);
    let mut targets: Vec<String> = Vec::new();
    let mut i: usize = 0;
    while i + 1 < n
        invariant
            n == args@.len(),
            n > 0,
            a == string_views(args@),
            i <= n - 1,
            string_views(targets@) == a.subrange(0, i as int),
        decreases n - i,
    {
        let s = owned(args[i].as_str());
        let ghost before = string_views(targets@);
        targets.push(s);
        assert(string_views(targets@) =~= before.push(s@));
        assert(a.subrange(0, i + 1) =~= a.subrange(0, i as int).push(a[i as int]));
        i = i + 1;
    }
    assert(a.subrange(0, i as int) =~= a.drop_last());
    let output = owned(args[n - 1].as_str());
    assert(output@ == a.last());
    match list_file {
        Some(content) => {
            let ls = lines_exec(&to_chars(content));
            let ghost lv = views_of(ls@);
            let ghost base = string_views(targets@);
            let mut k: usize = 0;
            while k < ls.len()
                invariant
                    lv == views_of(ls@),
                    lv == lines(content@),
                    k <= ls@.len(),
                    string_views(targets@) == base + list_targets(lv.subrange(0, k as int), opt_view_str(home)),
                decreases ls@.len() - k,
            {
                let t = trim_exec(&ls[k]);
                assert(lv.subrange(0, k + 1).drop_last() =~= lv.subrange(0, k as int));
                assert(lv.subrange(0, k + 1).last() == ls@[k as int]@);
                if t.len() > 0 && t[0] != '#' {
                    let e = expand_tilde(string_of(&t).as_str(), home);
                    let ghost before = string_views(targets@);
                    targets.push(e);
                    assert(string_views(targets@) =~= before.push(e@));
                }
                k = k + 1;
                assert(string_views(targets@) =~= base + list_targets(lv.subrange(0, k as int), opt_view_str(home)));
            }
            assert(lv.subrange(0, k as int) =~= lv);
        },
        None => {
            assert(string_views(targets@) =~= a.drop_last() + Seq::<Seq<char>>::empty());
        },
    }
    if targets.len() == 0 {
        return Err(ZksError::MissingTarget(owned("No targets specified to freeze")));
    }
    Ok((targets, output))
}

/// A prefix typed at the prompt: trimmed, non-empty, without `/` or NUL.
pub open spec fn prefix_ok(t: Seq<char>) -> bool {
    t.len() > 0 && !t.contains('/') && !t.contains('\0')
}

pub fn validate_prefix(line: &str) -> (r: Result<String, ZksError>)
    ensures
        r is Ok <==> prefix_ok(trim(line@)),
        r is Ok ==> r->Ok_0@ == trim(line@),
        r is Err ==> r->Err_0 is OperationFailed,
{
    let t = trim_exec(&to_chars(line));
    if t.len() == 0 {
        return Err(ZksError::OperationFailed(owned("Prefix cannot be empty")));
    }
    let mut i: usize = 0;
    while i < t.len()
        invariant
            t@ == trim(line@),
            i <= t@.len(),
            forall|j: int| 0 <= j < i ==> t@[j] != '/' && t@[j] != '\0',
        decreases t@.len() - i,
    {
        if t[i] == '/' || t[i] == '\0' {
            let ghost k = i as int;
            if t[i] == '/' {
                assert(0 <= k < t@.len() && t@[k] == '/');
            } else {
                assert(0 <= k < t@.len() && t@[k] == '\0');
            }
            return Err(ZksError::OperationFailed(owned("Prefix cannot contain '/' or null characters")));
        }
        i = i + 1;
    }
    Ok(string_of(&t))
}

/// A fresh archive path inside an output directory.
pub fn resolve_directory_output(dir: &str, prefix: &str, secs: u64, encrypt: bool) -> (r: String)
    ensures
        exists|rnd: nat|
            100000 <= rnd < 999999 && r@ == join_path(dir@, archive_file_name_spec(prefix@, secs as nat, rnd, encrypt)),
{
    let name = auto_archive_name(prefix, secs, encrypt);
    string_of(&join_path_exec(&to_chars(dir), &to_chars(name.as_str())))
}

} // verus!
