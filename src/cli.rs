//! The command-line grammar shared by the `0k` and `zks` front ends:
//! a subcommand, then flags, flag values and positional arguments.

use vstd::prelude::*;
use crate::text::{owned, parse_unsigned, parse_unsigned_exec, string_views, to_chars};

verus! {

/// Which front end's flag set is in force.
#[derive(Clone, Copy, Debug, PartialEq, Eq, Structural)]
pub enum Dialect {
    /// `0k`: freeze also takes `-L`/`--dereference` and `--prefix`;
    /// check takes `--delete` and `-D`/`--force-delete` (which needs `--delete`).
    Zk,
    /// `zks`: check takes `--force-delete` alone.
    Zks,
}

#[derive(Clone, Copy, Debug, PartialEq, Eq, Structural)]
pub enum Sub {
    Freeze,
    Unfreeze,
    Check,
}

#[derive(Clone, Copy, Debug, PartialEq, Eq, Structural)]
pub enum FlagId {
    Encrypt,
    Read,
    OverwriteFiles,
    OverwriteLuksContent,
    NoProgress,
    VanillaProgress,
    AlfaProgress,
    Compression,
    Dereference,
    Prefix,
    Overwrite,
    SkipExisting,
    UseCmp,
    Delete,
    ForceDelete,
}

pub open spec fn takes_value(f: FlagId) -> bool {
    f == FlagId::Read || f == FlagId::Compression || f == FlagId::Prefix
}

pub open spec fn is_progress(f: FlagId) -> bool {
    f == FlagId::NoProgress || f == FlagId::VanillaProgress || f == FlagId::AlfaProgress
}

pub open spec fn sub_of(t: Seq<char>) -> Option<Sub> {
    if t == "freeze"@ {
        Some(Sub::Freeze)
    } else if t == "unfreeze"@ {
        Some(Sub::Unfreeze)
    } else if t == "check"@ {
        Some(Sub::Check)
    } else {
        None
    }
}

/// The flag a token names in a subcommand of a dialect.
pub open spec fn flag_of(d: Dialect, s: Sub, t: Seq<char>) -> Option<FlagId> {
    match s {
        Sub::Freeze => if t == "-e"@ || t == "--encrypt"@ {
            Some(FlagId::Encrypt)
        } else if t == "-r"@ || t == "--read"@ {
            Some(FlagId::Read)
        } else if t == "--overwrite-files"@ {
            Some(FlagId::OverwriteFiles)
        } else if t == "--overwrite-luks-content"@ {
            Some(FlagId::OverwriteLuksContent)
        } else if t == "--no-progress"@ {
            Some(FlagId::NoProgress)
        } else if t == "--vanilla-progress"@ {
            Some(FlagId::VanillaProgress)
        } else if t == "--alfa-progress"@ {
            Some(FlagId::AlfaProgress)
        } else if t == "-c"@ || t == "--compression"@ {
            Some(FlagId::Compression)
        } else if d == Dialect::Zk && (t == "-L"@ || t == "--dereference"@) {
            Some(FlagId::Dereference)
        } else if d == Dialect::Zk && t == "--prefix"@ {
            Some(FlagId::Prefix)
        } else {
            None
        },
        Sub::Unfreeze => if t == "--overwrite"@ {
            Some(FlagId::Overwrite)
        } else if t == "--skip-existing"@ {
            Some(FlagId::SkipExisting)
        } else {
            None
        },
        Sub::Check => if t == "--use-cmp"@ {
            Some(FlagId::UseCmp)
        } else if d == Dialect::Zk && t == "--delete"@ {
            Some(FlagId::Delete)
        } else if (d == Dialect::Zk && t == "-D"@) || t == "--force-delete"@ {
            Some(FlagId::ForceDelete)
        } else {
            None
        },
    }
}

/// Everything read so far from the arguments after the subcommand.
pub struct ScanState {
    pub failed: bool,
    pub pending: Option<FlagId>,
    pub after_dashdash: bool,
    pub positionals: Seq<Seq<char>>,
    pub seen: Seq<FlagId>,
    pub read: Option<Seq<char>>,
    pub compression: Option<u32>,
    pub prefix: Option<Seq<char>>,
}

pub open spec fn initial_state() -> ScanState {
    ScanState {
        failed: false,
        pending: None,
        after_dashdash: false,
        positionals: Seq::empty(),
        seen: Seq::empty(),
        read: None,
        compression: None,
        prefix: None,
    }
}

pub open spec fn failed_state(a: ScanState) -> ScanState {
    ScanState { failed: true, ..a }
}

pub open spec fn looks_like_flag(t: Seq<char>) -> bool {
    t.len() > 1 && t[0] == '-'
}

pub open spec fn progress_seen(seen: Seq<FlagId>) -> bool {
    seen.contains(FlagId::NoProgress) || seen.contains(FlagId::VanillaProgress) || seen.contains(
        FlagId::AlfaProgress,
    )
}

/// Reads one token. A flag given twice, two progress flags, an unknown
/// flag, a flag-like value or a non-numeric compression level fail the scan.
pub open spec fn step(d: Dialect, s: Sub, a: ScanState, t: Seq<char>) -> ScanState {
    if a.failed {
        a
    } else if a.pending is Some {
        let f = a.pending->0;
        if looks_like_flag(t) {
            failed_state(a)
        } else if f == FlagId::Read {
            ScanState { pending: None, read: Some(t), ..a }
        } else if f == FlagId::Prefix {
            ScanState { pending: None, prefix: Some(t), ..a }
        } else {
            match parse_unsigned(t, u32::MAX as nat) {
                Some(v) => ScanState { pending: None, compression: Some(v as u32), ..a },
                None => failed_state(a),
            }
        }
    } else if a.after_dashdash || !looks_like_flag(t) {
        ScanState { positionals: a.positionals.push(t), ..a }
    } else if t == "--"@ {
        ScanState { after_dashdash: true, ..a }
    } else {
        match flag_of(d, s, t) {
            None => failed_state(a),
            Some(f) => if a.seen.contains(f) || (is_progress(f) && progress_seen(a.seen)) {
                failed_state(a)
            } else if takes_value(f) {
                ScanState { seen: a.seen.push(f), pending: Some(f), ..a }
            } else {
                ScanState { seen: a.seen.push(f), ..a }
            },
        }
    }
}

/// The state after reading all of `ts`.
pub open spec fn scan(d: Dialect, s: Sub, ts: Seq<Seq<char>>) -> ScanState
    decreases ts.len(),
{
    if ts.len() == 0 {
        initial_state()
    } else {
        step(d, s, scan(d, s, ts.drop_last()), ts.last())
    }
}

/// The scan ended well for the subcommand: no failure, no missing value,
/// the right number of positionals, and `-D` only with `--delete` in `0k`.
pub open spec fn scan_ok(d: Dialect, s: Sub, a: ScanState) -> bool {
    &&& !a.failed
    &&& a.pending is None
    &&& match s {
        Sub::Freeze => a.positionals.len() >= 1,
        _ => a.positionals.len() == 1,
    }
    &&& (d == Dialect::Zk && s == Sub::Check && a.seen.contains(FlagId::ForceDelete)) ==> a.seen.contains(FlagId::Delete)
}

/// Executable scanning state.
pub struct Scanner {
    pub failed: bool,
    pub pending: Option<FlagId>,
    pub after_dashdash: bool,
    pub positionals: Vec<String>,
    pub seen: Vec<FlagId>,
    pub read: Option<String>,
    pub compression: Option<u32>,
    pub prefix: Option<String>,
}

pub open spec fn opt_str(o: Option<String>) -> Option<Seq<char>> {
    match o {
        Some(s) => Some(s@),
        None => None,
    }
}

impl View for Scanner {
    type V = ScanState;

    open spec fn view(&self) -> ScanState {
        ScanState {
            failed: self.failed,
            pending: self.pending,
            after_dashdash: self.after_dashdash,
            positionals: string_views(self.positionals@),
            seen: self.seen@,
            read: opt_str(self.read),
            compression: self.compression,
            prefix: opt_str(self.prefix),
        }
    }
}

fn is_lit(a: &Vec<char>, s: &str) -> (r: bool)
    ensures
        r == (a@ == s@),
{
    let b = to_chars(s);
    if a.len() != b.len() {
        return false;
    }
    let mut i: usize = 0;
    while i < a.len()
        invariant
            b@ == s@,
            a@.len() == b@.len(),
            i <= a@.len(),
            forall|j: int| 0 <= j < i ==> a@[j] == b@[j],
        decreases a@.len() - i,
    {
        if a[i] != b[i] {
            assert(a@[i as int] != b@[i as int]);
            return false;
        }
        i = i + 1;
    }
    assert(a@ =~= b@);
    true
}

pub fn sub_of_exec(t: &str) -> (r: Option<Sub>)
    ensures
        r == sub_of(t@),
{
    let v = to_chars(t);
    if is_lit(&v, "freeze") {
        Some(Sub::Freeze)
    } else if is_lit(&v, "unfreeze") {
        Some(Sub::Unfreeze)
    } else if is_lit(&v, "check") {
        Some(Sub::Check)
    } else {
        None
    }
}

fn flag_of_exec(d: Dialect, s: Sub, v: &Vec<char>) -> (r: Option<FlagId>)
    ensures
        r == flag_of(d, s, v@),
{
    match s {
        Sub::Freeze => if is_lit(v, "-e") || is_lit(v, "--encrypt") {
            Some(FlagId::Encrypt)
        } else if is_lit(v, "-r") || is_lit(v, "--read") {
            Some(FlagId::Read)
        } else if is_lit(v, "--overwrite-files") {
            Some(FlagId::OverwriteFiles)
        } else if is_lit(v, "--overwrite-luks-content") {
            Some(FlagId::OverwriteLuksContent)
        } else if is_lit(v, "--no-progress") {
            Some(FlagId::NoProgress)
        } else if is_lit(v, "--vanilla-progress") {
            Some(FlagId::VanillaProgress)
        } else if is_lit(v, "--alfa-progress") {
            Some(FlagId::AlfaProgress)
        } else if is_lit(v, "-c") || is_lit(v, "--compression") {
            Some(FlagId::Compression)
        } else if d == Dialect::Zk && (is_lit(v, "-L") || is_lit(v, "--dereference")) {
            Some(FlagId::Dereference)
        } else if d == Dialect::Zk && is_lit(v, "--prefix") {
            Some(FlagId::Prefix)
        } else {
            None
        },
        Sub::Unfreeze => if is_lit(v, "--overwrite") {
            Some(FlagId::Overwrite)
        } else if is_lit(v, "--skip-existing") {
            Some(FlagId::SkipExisting)
        } else {
            None
        },
        Sub::Check => if is_lit(v, "--use-cmp") {
            Some(FlagId::UseCmp)
        } else if d == Dialect::Zk && is_lit(v, "--delete") {
            Some(FlagId::Delete)
        } else if (d == Dialect::Zk && is_lit(v, "-D")) || is_lit(v, "--force-delete") {
            Some(FlagId::ForceDelete)
        } else {
            None
        },
    }
}

fn seen_contains(seen: &Vec<FlagId>, f: FlagId) -> (r: bool)
    ensures
        r == seen@.contains(f),
{
    let mut i: usize = 0;
    while i < seen.len()
        invariant
            i <= seen@.len(),
            forall|j: int| 0 <= j < i ==> seen@[j] != f,
        decreases seen@.len() - i,
    {
        if seen[i] == f {
            assert(seen@[i as int] == f);
            return true;
        }
        i = i + 1;
    }
    false
}

impl Scanner {
    pub fn new() -> (r: Scanner)
        ensures
            r@ == initial_state(),
    {
        let r = Scanner {
            failed: false,
            pending: None,
            after_dashdash: false,
            positionals: Vec::new(),
            seen: Vec::new(),
            read: None,
            compression: None,
            prefix: None,
        };
        assert(r@.positionals =~= Seq::<Seq<char>>::empty());
        assert(r@.seen =~= Seq::<FlagId>::empty());
        r
    }

    /// Reads one token.
    pub fn step(&mut self, d: Dialect, s: Sub, tok: &str)
        ensures
            final(self)@ == step(d, s, old(self)@, tok@),
    {
        if self.failed {
            return;
        }
        let t = to_chars(tok);
        let flaglike = t.len() > 1 && t[0] == '-';
        match self.pending {
            Some(f) => {
                if flaglike {
                    self.failed = true;
                } else if f == FlagId::Read {
                    self.pending = None;
                    self.read = Some(owned(tok));
                } else if f == FlagId::Prefix {
                    self.pending = None;
                    self.prefix = Some(owned(tok));
                } else {
                    match parse_unsigned_exec(&t, 0xffff_ffff) {
                        Some(v) => {
                            self.pending = None;
                            self.compression = Some(v as u32);
                        },
                        None => {
                            self.failed = true;
                        },
                    }
                }
                return;
            },
            None => {},
        }
        if self.after_dashdash || !flaglike {
            let ghost before = string_views(self.positionals@);
            let o = owned(tok);
            self.positionals.push(o);
            assert(string_views(self.positionals@) =~= before.push(tok@));
            return;
        }
        if is_lit(&t, "--") {
            self.after_dashdash = true;
            return;
        }
        match flag_of_exec(d, s, &t) {
            None => {
                self.failed = true;
            },
            Some(f) => {
                let prog = f == FlagId::NoProgress || f == FlagId::VanillaProgress || f == FlagId::AlfaProgress;
                let any_prog = seen_contains(&self.seen, FlagId::NoProgress) || seen_contains(
                    &self.seen,
                    FlagId::VanillaProgress,
                ) || seen_contains(&self.seen, FlagId::AlfaProgress);
                if seen_contains(&self.seen, f) || (prog && any_prog) {
                    self.failed = true;
                } else {
                    self.seen.push(f);
                    if f == FlagId::Read || f == FlagId::Compression || f == FlagId::Prefix {
                        self.pending = Some(f);
                    }
                }
            },
        }
    }
}

/// The views of an argument list.
pub open spec fn arg_views(args: Seq<&str>) -> Seq<Seq<char>> {
    args.map_values(|t: &str| t@)
}

/// Scans `args[from..]`, the arguments after the subcommand.
pub fn scan_args(d: Dialect, s: Sub, args: &[&str], from: usize) -> (r: Scanner)
    requires
        from <= args@.len(),
    ensures
        r@ == scan(d, s, arg_views(args@).subrange(from as int, args@.len() as int)),
{
    let mut sc = Scanner::new();
    let ghost ts = arg_views(args@).subrange(from as int, args@.len() as int);
    let mut i: usize = from;
    assert(ts.subrange(0, 0) =~= Seq::<Seq<char>>::empty());
    while i < args.len()
        invariant
            ts == arg_views(args@).subrange(from as int, args@.len() as int),
            from <= i <= args@.len(),
            sc@ == scan(d, s, ts.subrange(0, i - from)),
        decreases args@.len() - i,
    {
        sc.step(d, s, args[i]);
        assert(ts.subrange(0, i + 1 - from).drop_last() =~= ts.subrange(0, i - from));
        assert(ts[i - from] == args@[i as int]@);
        i = i + 1;
    }
    assert(ts.subrange(0, i - from) =~= ts);
    sc
}

/// Whether the scan ended well (see `scan_ok`).
pub fn scan_finished_ok(d: Dialect, s: Sub, sc: &Scanner) -> (r: bool)
    ensures
        r == scan_ok(d, s, sc@),
{
    if sc.failed || sc.pending.is_some() {
        return false;
    }
    let count_ok = match s {
        Sub::Freeze => sc.positionals.len() >= 1,
        _ => sc.positionals.len() == 1,
    };
    if !count_ok {
        return false;
    }
    if d == Dialect::Zk && s == Sub::Check && seen_contains(&sc.seen, FlagId::ForceDelete) {
        return seen_contains(&sc.seen, FlagId::Delete);
    }
    true
}

/// Whether a flag was given.
pub fn given(sc: &Scanner, f: FlagId) -> (r: bool)
    ensures
        r == sc@.seen.contains(f),
{
    seen_contains(&sc.seen, f)
}

} // verus!
