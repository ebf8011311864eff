//! Reading a progress percentage out of an archive builder's output line.

use vstd::prelude::*;
use crate::text::{parse_unsigned, parse_unsigned_exec, to_chars};

verus! {

/// The digits of the last `(\d+)%` match in a line, as the `regex` crate
/// finds it.
pub uninterp spec fn last_percent_digits(line: Seq<char>) -> Option<Seq<char>>;

/// Relies on `regex::Regex::captures_iter` with the pattern `(\d+)%`: the
/// first group of the last match; it depends only on the line.
#[verifier::external_body]
fn last_percent_capture(line: &str) -> (r: Option<String>)
    ensures
        match r {
            Some(d) => last_percent_digits(line@) == Some(d@),
            None => last_percent_digits(line@) is None,
        },
{
    let re = regex::Regex::new(r"(\d+)%").ok()?;
    re.captures_iter(line).last().and_then(|c| c.get(1)).map(|m| m.as_str().to_string())
}

/// The percentage that captured digits denote, when they read as a `u64`.
pub fn percent_from_digits(digits: &str) -> (r: Option<u64>)
    ensures
        r is Some <==> parse_unsigned(digits@, u64::MAX as nat) is Some,
        r is Some ==> r->0 as nat == parse_unsigned(digits@, u64::MAX as nat)->0,
{
    parse_unsigned_exec(&to_chars(digits), u64::MAX)
}

/// The value to set the progress indicator to after an output line: the
/// last `N%` on it, if it reads as a number.
pub fn progress_percent(line: &str) -> (r: Option<u64>)
    ensures
        match last_percent_digits(line@) {
            Some(d) => (r is Some <==> parse_unsigned(d, u64::MAX as nat) is Some) && (r is Some
                ==> r->0 as nat == parse_unsigned(d, u64::MAX as nat)->0),
            None => r is None,
        },
{
    match last_percent_capture(line) {
        Some(d) => percent_from_digits(d.as_str()),
        None => None,
    }
}

} // verus!
