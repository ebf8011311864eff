//! POSIX single-quote escaping for generated shell scripts.

use vstd::prelude::*;
use crate::text::{string_of, to_chars};

verus! {

/// What one input character becomes inside a single-quoted word: a quote
/// closes the word, emits an escaped quote and reopens it.
pub open spec fn quote_piece(c: char) -> Seq<char> {
    if c == '\'' {
        seq!['\'', '\\', '\'', '\'']
    } else {
        seq![c]
    }
}

/// The text between the outer quotes of `quoted(s)`.
pub open spec fn quote_body(s: Seq<char>) -> Seq<char>
    decreases s.len(),
{
    if s.len() == 0 {
        Seq::empty()
    } else {
        quote_piece(s[0]) + quote_body(s.drop_first())
    }
}

/// `s` wrapped in single quotes, each embedded `'` written as `'\''`.
pub open spec fn quoted(s: Seq<char>) -> Seq<char> {
    seq!['\''] + quote_body(s) + seq!['\'']
}

/// How a POSIX shell reads the rest of a word while inside single quotes:
/// every character is literal up to the closing quote.
pub open spec fn sh_read_quoted(w: Seq<char>) -> Option<Seq<char>>
    decreases w.len(), 1nat,
{
    if w.len() == 0 {
        None
    } else if w[0] == '\'' {
        sh_read_plain(w.drop_first())
    } else {
        match sh_read_quoted(w.drop_first()) {
            Some(r) => Some(seq![w[0]] + r),
            None => None,
        }
    }
}

/// How a POSIX shell reads the rest of a word outside quotes, for words built
/// only from quoted runs and backslash escapes; any other unquoted character
/// (which the shell might expand or split on) makes the word unreadable here.
pub open spec fn sh_read_plain(w: Seq<char>) -> Option<Seq<char>>
    decreases w.len(), 0nat,
{
    if w.len() == 0 {
        Some(Seq::empty())
    } else if w[0] == '\'' {
        sh_read_quoted(w.drop_first())
    } else if w[0] == '\\' && w.len() >= 2 {
        match sh_read_plain(w.subrange(2, w.len() as int)) {
            Some(r) => Some(seq![w[1]] + r),
            None => None,
        }
    } else {
        None
    }
}

proof fn lemma_body_push(s: Seq<char>, c: char)
    ensures
        quote_body(s.push(c)) == quote_body(s) + quote_piece(c),
    decreases s.len(),
{
    if s.len() == 0 {
        assert(s.push(c).drop_first() =~= Seq::<char>::empty());
        assert(quote_body(Seq::<char>::empty()) == Seq::<char>::empty());
        assert(quote_body(s) == Seq::<char>::empty());
        assert(quote_body(s.push(c)) == quote_piece(c) + Seq::<char>::empty());
        assert(quote_body(s.push(c)) =~= quote_body(s) + quote_piece(c));
    } else {
        assert(s.push(c).drop_first() =~= s.drop_first().push(c));
        lemma_body_push(s.drop_first(), c);
        assert(quote_body(s.push(c)) =~= quote_body(s) + quote_piece(c));
    }
}

proof fn lemma_read_body(s: Seq<char>, rest: Seq<char>)
    ensures
        sh_read_quoted(quote_body(s) + seq!['\''] + rest) == match sh_read_plain(rest) {
            Some(r) => Some(s + r),
            None => None::<Seq<char>>,
        },
    decreases s.len(),
{
    let w = quote_body(s) + seq!['\''] + rest;
    if s.len() == 0 {
        assert(quote_body(s) == Seq::<char>::empty());
        assert(w =~= seq!['\''] + rest);
        assert(w[0] == '\'');
        assert(w.drop_first() =~= rest);
        assert(sh_read_quoted(w) == sh_read_plain(rest));
        match sh_read_plain(rest) {
            Some(r) => { assert(s + r =~= r); },
            None => {},
        }
    } else {
        let tail = s.drop_first();
        lemma_read_body(tail, rest);
        let inner = quote_body(tail) + seq!['\''] + rest;
        assert(quote_body(s) == quote_piece(s[0]) + quote_body(tail));
        if s[0] == '\'' {
            assert(w =~= seq!['\'', '\\', '\'', '\''] + inner);
            let p = w.drop_first();
            assert(p =~= seq!['\\', '\'', '\''] + inner);
            let q = p.subrange(2, p.len() as int);
            assert(q =~= seq!['\''] + inner);
            assert(q.drop_first() =~= inner);
            assert(sh_read_plain(q) == sh_read_quoted(inner));
            assert(sh_read_plain(p) == match sh_read_plain(q) {
                Some(r) => Some(seq![p[1]] + r),
                None => None::<Seq<char>>,
            });
            assert(sh_read_quoted(w) == sh_read_plain(p));
            match sh_read_plain(rest) {
                Some(r) => { assert(seq![p[1]] + (tail + r) =~= s + r); },
                None => {},
            }
        } else {
            assert(w =~= seq![s[0]] + inner);
            assert(w[0] == s[0]);
            assert(w.drop_first() =~= inner);
            match sh_read_plain(rest) {
                Some(r) => { assert(seq![s[0]] + (tail + r) =~= s + r); },
                None => {},
            }
        }
    }
}

/// Quoting is injection-safe: a shell reading `quoted(s)` as a word gets
/// back exactly `s`, whatever characters (`$`, backquotes, backslashes,
/// quotes, blanks) `s` holds.
pub proof fn lemma_quote_round_trip(s: Seq<char>)
    ensures
        sh_read_plain(quoted(s)) == Some(s),
{
    let q = quoted(s);
    assert(q.drop_first() =~= quote_body(s) + seq!['\''] + Seq::<char>::empty());
    lemma_read_body(s, Seq::<char>::empty());
    assert(s + Seq::<char>::empty() =~= s);
}

/// Wraps `s` in single quotes for a POSIX shell, writing each `'` as `'\''`.
pub fn shell_quote(s: &str) -> (r: String)
    ensures
        r@ == quoted(s@),
{
    string_of(&quote_chars(&to_chars(s)))
}

/// `quoted`, on a character vector.
pub fn quote_chars(s: &Vec<char>) -> (r: Vec<char>)
    ensures
        r@ == quoted(s@),
{
    let n = s.len();
    let mut out: Vec<char> = vec!['\''];
    let mut i: usize = 0;
    while i < n
        invariant
            n == s@.len(),
            i <= n,
            out@ == seq!['\''] + quote_body(s@.subrange(0, i as int)),
        decreases n - i,
    {
        let c = s[i];
        proof {
            assert(s@.subrange(0, i + 1) =~= s@.subrange(0, i as int).push(c));
            lemma_body_push(s@.subrange(0, i as int), c);
        }
        if c == '\'' {
            out.push('\'');
            out.push('\\');
            out.push('\'');
            out.push('\'');
        } else {
            out.push(c);
        }
        i = i + 1;
        assert(out@ =~= seq!['\''] + quote_body(s@.subrange(0, i as int)));
    }
    out.push('\'');
    assert(s@.subrange(0, n as int) =~= s@);
    out
}

} // verus!
