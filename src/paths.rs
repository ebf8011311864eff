//! Path text rules: joining, `..` components, splitting off the last name.

use vstd::prelude::*;
use crate::text::{push_chars, starts_with, ends_with};

verus! {

/// `a` joined with `b` as `PathBuf::push` does: an absolute `b` replaces
/// `a`; otherwise one `/` separates them unless `a` is empty or already ends
/// with one.
pub open spec fn join_path(a: Seq<char>, b: Seq<char>) -> Seq<char> {
    if b.len() > 0 && b[0] == '/' {
        b
    } else if a.len() == 0 || a.last() == '/' {
        a + b
    } else {
        a + seq!['/'] + b
    }
}

/// Executable `join_path`.
pub fn join_path_exec(a: &Vec<char>, b: &Vec<char>) -> (r: Vec<char>)
    ensures
        r@ == join_path(a@, b@),
{
    if b.len() > 0 && b[0] == '/' {
        return b.clone();
    }
    let mut r = a.clone();
    if !(a.len() == 0 || a[a.len() - 1] == '/') {
        r.push('/');
    }
    push_chars(&mut r, b);
    r
}

/// `p` holds `..` as a whole `/`-separated component at position `i`.
pub open spec fn dotdot_at(p: Seq<char>, i: int) -> bool {
    0 <= i && i + 2 <= p.len() && p[i] == '.' && p[i + 1] == '.' && (i == 0 || p[i - 1] == '/')
        && (i + 2 == p.len() || p[i + 2] == '/')
}

/// Some `/`-separated component of `p` is `..`.
pub open spec fn has_dotdot_component(p: Seq<char>) -> bool {
    exists|i: int| dotdot_at(p, i)
}

/// Executable `has_dotdot_component`.
pub fn has_dotdot_component_exec(p: &Vec<char>) -> (r: bool)
    ensures
        r == has_dotdot_component(p@),
{
    let n = p.len();
    let mut i: usize = 0;
    while n >= 2 && i <= n - 2
        invariant
            n == p@.len(),
            forall|j: int| 0 <= j < i ==> !dotdot_at(p@, j),
        decreases n - i,
    {
        if p[i] == '.' && p[i + 1] == '.' && (i == 0 || p[i - 1] == '/') && (i + 2 == n || p[i + 2] == '/') {
            assert(dotdot_at(p@, i as int));
            return true;
        }
        i = i + 1;
    }
    assert forall|j: int| !dotdot_at(p@, j) by {
        if j >= i && j + 2 <= n {
            assert(n >= 2 && i <= n - 2);
        }
    }
    false
}

/// Index of the last `/` in `s`, or -1.
pub open spec fn last_slash(s: Seq<char>) -> int
    decreases s.len(),
{
    if s.len() == 0 {
        -1
    } else if s.last() == '/' {
        s.len() - 1
    } else {
        last_slash(s.drop_last())
    }
}

/// `s` without trailing `/`s, keeping a lone leading one.
pub open spec fn trim_trailing_slashes(s: Seq<char>) -> Seq<char>
    decreases s.len(),
{
    if s.len() > 1 && s.last() == '/' {
        trim_trailing_slashes(s.drop_last())
    } else {
        s
    }
}

/// The last name of an absolute path and the directory holding it.
pub open spec fn split_name(path: Seq<char>) -> (Seq<char>, Seq<char>) {
    let t = trim_trailing_slashes(path);
    let k = last_slash(t);
    let name = t.subrange(k + 1, t.len() as int);
    let parent_raw = t.subrange(0, if k < 0 { 0 } else { k });
    let parent = if parent_raw.len() == 0 { seq!['/'] } else { trim_trailing_slashes(parent_raw) };
    (name, parent)
}

proof fn lemma_last_slash_bounds(s: Seq<char>)
    ensures
        -1 <= last_slash(s) < s.len(),
        last_slash(s) >= 0 ==> s[last_slash(s)] == '/',
        forall|j: int| last_slash(s) < j < s.len() ==> s[j] != '/',
    decreases s.len(),
{
    if s.len() > 0 && s.last() != '/' {
        lemma_last_slash_bounds(s.drop_last());
        assert forall|j: int| last_slash(s) < j < s.len() implies s[j] != '/' by {
            if j < s.len() - 1 {
                assert(s[j] == s.drop_last()[j]);
            }
        }
    }
}

fn trim_trailing_slashes_exec(s: &Vec<char>) -> (r: Vec<char>)
    ensures
        r@ == trim_trailing_slashes(s@),
{
    let mut n = s.len();
    assert(s@.subrange(0, n as int) =~= s@);
    while n > 1 && s[n - 1] == '/'
        invariant
            n <= s@.len(),
            trim_trailing_slashes(s@.subrange(0, n as int)) == trim_trailing_slashes(s@),
        decreases n,
    {
        assert(s@.subrange(0, n as int).drop_last() =~= s@.subrange(0, n - 1));
        n = n - 1;
    }
    let mut r: Vec<char> = Vec::new();
    let mut i: usize = 0;
    while i < n
        invariant
            n <= s@.len(),
            i <= n,
            r@ == s@.subrange(0, i as int),
        decreases n - i,
    {
        r.push(s[i]);
        i = i + 1;
        assert(r@ =~= s@.subrange(0, i as int));
    }
    assert(trim_trailing_slashes(s@.subrange(0, n as int)) == s@.subrange(0, n as int));
    r
}

fn last_slash_exec(s: &Vec<char>) -> (r: Option<usize>)
    ensures
        r is Some <==> last_slash(s@) >= 0,
        r is Some ==> r->0 as int == last_slash(s@),
{
    let mut n = s.len();
    assert(s@.subrange(0, n as int) =~= s@);
    while n > 0 && s[n - 1] != '/'
        invariant
            n <= s@.len(),
            last_slash(s@.subrange(0, n as int)) == last_slash(s@),
        decreases n,
    {
        assert(s@.subrange(0, n as int).drop_last() =~= s@.subrange(0, n - 1));
        n = n - 1;
    }
    if n == 0 {
        assert(s@.subrange(0, 0) =~= Seq::<char>::empty());
        None
    } else {
        Some(n - 1)
    }
}

fn copy_range(s: &Vec<char>, from: usize, to: usize) -> (r: Vec<char>)
    requires
        from <= to <= s@.len(),
    ensures
        r@ == s@.subrange(from as int, to as int),
{
    let mut r: Vec<char> = Vec::new();
    let mut i = from;
    while i < to
        invariant
            from <= i <= to <= s@.len(),
            r@ == s@.subrange(from as int, i as int),
        decreases to - i,
    {
        r.push(s[i]);
        i = i + 1;
        assert(r@ =~= s@.subrange(from as int, i as int));
    }
    r
}

/// Executable `split_name`: `(name, parent)`.
pub fn split_name_exec(path: &Vec<char>) -> (r: (Vec<char>, Vec<char>))
    ensures
        (r.0@, r.1@) == split_name(path@),
{
    let t = trim_trailing_slashes_exec(path);
    proof { lemma_last_slash_bounds(t@); }
    let k = last_slash_exec(&t);
    let (name, parent_raw) = match k {
        Some(k) => (copy_range(&t, k + 1, t.len()), copy_range(&t, 0, k)),
        None => (copy_range(&t, 0, t.len()), Vec::new()),
    };
    assert(parent_raw@ =~= t@.subrange(0, if last_slash(t@) < 0 { 0 } else { last_slash(t@) }));
    let parent = if parent_raw.len() == 0 {
        vec!['/']
    } else {
        trim_trailing_slashes_exec(&parent_raw)
    };
    (name, parent)
}

} // verus!
