//! Reading the effective UID out of `/proc/self/status`.

use vstd::prelude::*;
use crate::error::ZksError;
use crate::text::{
    lines, lines_exec, parse_unsigned, parse_unsigned_exec, push_chars, push_str_chars,
    starts_with, starts_with_exec, string_of, to_chars, views_of, words, words_exec,
};

verus! {

/// The first `Uid:` line with at least three fields decides: its third
/// field (the effective UID) read as a `u32`, or `Some(None)` when that
/// field is not a number. `None` when no such line exists.
pub open spec fn uid_from_lines(ls: Seq<Seq<char>>) -> Option<Option<nat>>
    decreases ls.len(),
{
    if ls.len() == 0 {
        None
    } else if starts_with(ls[0], "Uid:"@) && words(ls[0]).len() >= 3 {
        Some(parse_unsigned(words(ls[0])[2], 0xffff_ffff))
    } else {
        uid_from_lines(ls.drop_first())
    }
}

/// The effective UID that a status text declares, if it declares one.
pub open spec fn status_uid(content: Seq<char>) -> Option<Option<nat>> {
    uid_from_lines(lines(content))
}

/// Reads the effective UID (second number of the `Uid:` line) from the
/// text of `/proc/<pid>/status`.
pub fn parse_uid_from_status(content: &str) -> (r: Result<u32, ZksError>)
    ensures
        match status_uid(content@) {
            Some(Some(v)) => v <= 0xffff_ffff && r == Ok::<u32, ZksError>(v as u32),
            _ => r is Err && r->Err_0 is OperationFailed,
        },
{
    let c = to_chars(content);
    let ls = lines_exec(&c);
    let prefix = to_chars("Uid:");
    let mut i: usize = 0;
    assert(views_of(ls@).subrange(0, ls@.len() as int) =~= views_of(ls@));
    while i < ls.len()
        invariant
            prefix@ == "Uid:"@,
            i <= ls@.len(),
            views_of(ls@) == lines(content@),
            uid_from_lines(views_of(ls@).subrange(i as int, ls@.len() as int)) == status_uid(content@),
        decreases ls@.len() - i,
    {
        let line = &ls[i];
        let ghost rest = views_of(ls@).subrange(i as int, ls@.len() as int);
        assert(rest[0] == line@);
        assert(rest.drop_first() =~= views_of(ls@).subrange(i + 1, ls@.len() as int));
        if starts_with_exec(line, &prefix) {
            let parts = words_exec(line);
            if parts.len() >= 3 {
                let field = &parts[2];
                assert(field@ == words(line@)[2]);
                match parse_unsigned_exec(field, 0xffff_ffff) {
                    Some(v) => {
                        return Ok(v as u32);
                    },
                    None => {
                        let mut msg = to_chars("Failed to parse UID: ");
                        push_chars(&mut msg, field);
                        return Err(ZksError::OperationFailed(string_of(&msg)));
                    },
                }
            }
        }
        i = i + 1;
    }
    Err(ZksError::OperationFailed(string_of(&to_chars("Uid field not found in status"))))
}

/// Whether the status text declares effective UID 0.
pub fn is_root(status: &str) -> (r: Result<bool, ZksError>)
    ensures
        match status_uid(status@) {
            Some(Some(v)) => r == Ok::<bool, ZksError>(v == 0),
            _ => r is Err,
        },
{
    match parse_uid_from_status(status) {
        Ok(uid) => Ok(uid == 0),
        Err(e) => Err(e),
    }
}

} // verus!
