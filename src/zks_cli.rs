//! The `zks` command line: freeze, unfreeze and check.

use vstd::prelude::*;
use crate::cli::{
    arg_views, given, opt_str, scan, scan_args, scan_finished_ok, scan_ok, sub_of, sub_of_exec,
    Dialect, FlagId, ScanState, Scanner, Sub,
};
use crate::error::ZksError;
use crate::text::{owned, string_views};

verus! {

#[derive(Debug)]
pub enum Commands {
    Freeze {
        args: Vec<String>,
        encrypt: bool,
        read: Option<String>,
        overwrite_files: bool,
        overwrite_luks_content: bool,
        no_progress: bool,
        vanilla_progress: bool,
        alfa_progress: bool,
        compression: Option<u32>,
    },
    Unfreeze { archive_path: String, overwrite: bool, skip_existing: bool },
    Check { archive_path: String, use_cmp: bool, force_delete: bool },
}

#[derive(Debug)]
pub struct ZksArgs {
    pub command: Commands,
}

/// The command that a successful scan of a subcommand's arguments means.
pub open spec fn command_of(s: Sub, a: ScanState, c: Commands) -> bool {
    match c {
        Commands::Freeze {
            args,
            encrypt,
            read,
            overwrite_files,
            overwrite_luks_content,
            no_progress,
            vanilla_progress,
            alfa_progress,
            compression,
        } => s == Sub::Freeze && string_views(args@) == a.positionals && encrypt == a.seen.contains(FlagId::Encrypt)
            && opt_str(read) == a.read && overwrite_files == a.seen.contains(FlagId::OverwriteFiles)
            && overwrite_luks_content == a.seen.contains(FlagId::OverwriteLuksContent)
            && no_progress == a.seen.contains(FlagId::NoProgress)
            && vanilla_progress == a.seen.contains(FlagId::VanillaProgress)
            && alfa_progress == a.seen.contains(FlagId::AlfaProgress)
            && compression == a.compression,
        Commands::Unfreeze { archive_path, overwrite, skip_existing } => s == Sub::Unfreeze
            && archive_path@ == a.positionals[0] && overwrite == a.seen.contains(FlagId::Overwrite)
            && skip_existing == a.seen.contains(FlagId::SkipExisting),
        Commands::Check { archive_path, use_cmp, force_delete } => s == Sub::Check
            && archive_path@ == a.positionals[0] && use_cmp == a.seen.contains(FlagId::UseCmp)
            && force_delete == a.seen.contains(FlagId::ForceDelete),
    }
}

/// The command line is well formed: a known subcommand whose arguments scan well.
pub open spec fn parses(argv: Seq<Seq<char>>) -> bool {
    argv.len() >= 2 && sub_of(argv[1]) is Some && scan_ok(
        Dialect::Zks,
        sub_of(argv[1])->0,
        scan(Dialect::Zks, sub_of(argv[1])->0, argv.subrange(2, argv.len() as int)),
    )
}

fn copy_strings(v: &Vec<String>) -> (r: Vec<String>)
    ensures
        string_views(r@) == string_views(v@),
{
    let mut out: Vec<String> = Vec::new();
    let mut i: usize = 0;
    while i < v.len()
        invariant
            i <= v@.len(),
            string_views(out@) == string_views(v@.subrange(0, i as int)),
        decreases v@.len() - i,
    {
        let s = owned(v[i].as_str());
        let ghost before = string_views(out@);
        out.push(s);
        assert(string_views(out@) =~= before.push(s@));
        assert(string_views(v@.subrange(0, i + 1)) =~= string_views(v@.subrange(0, i as int)).push(v@[i as int]@));
        i = i + 1;
    }
    assert(v@.subrange(0, i as int) =~= v@);
    out
}

fn copy_opt(o: &Option<String>) -> (r: Option<String>)
    ensures
        opt_str(r) == opt_str(*o),
{
    match o {
        Some(s) => Some(owned(s.as_str())),
        None => None,
    }
}

impl ZksArgs {
    /// Parses `argv` (program name first); a malformed command line is a
    /// usage error with exit code 2.
    pub fn try_parse_from(argv: &[&str]) -> (r: Result<ZksArgs, ZksError>)
        ensures
            r is Ok <==> parses(arg_views(argv@)),
            r is Ok ==> ({
                let v = arg_views(argv@);
                let s = sub_of(v[1])->0;
                command_of(s, scan(Dialect::Zks, s, v.subrange(2, v.len() as int)), r->Ok_0.command)
            }),
            r is Err ==> r->Err_0 == ZksError::CliExit(2),
    {
        if argv.len() < 2 {
            return Err(ZksError::CliExit(2));
        }
        let ghost v = arg_views(argv@);
        assert(v[1] == argv@[1]@);
        let s = match sub_of_exec(argv[1]) {
            Some(s) => s,
            None => {
                return Err(ZksError::CliExit(2));
            },
        };
        let sc: Scanner = scan_args(Dialect::Zks, s, argv, 2);
        if !scan_finished_ok(Dialect::Zks, s, &sc) {
            return Err(ZksError::CliExit(2));
        }
        let command = match s {
            Sub::Freeze => Commands::Freeze {
                args: copy_strings(&sc.positionals),
                encrypt: given(&sc, FlagId::Encrypt),
                read: copy_opt(&sc.read),
                overwrite_files: given(&sc, FlagId::OverwriteFiles),
                overwrite_luks_content: given(&sc, FlagId::OverwriteLuksContent),
                no_progress: given(&sc, FlagId::NoProgress),
                vanilla_progress: given(&sc, FlagId::VanillaProgress),
                alfa_progress: given(&sc, FlagId::AlfaProgress),
                compression: sc.compression,
            },
            Sub::Unfreeze => {
                assert(string_views(sc.positionals@)[0] == sc.positionals@[0]@);
                Commands::Unfreeze {
                    archive_path: owned(sc.positionals[0].as_str()),
                    overwrite: given(&sc, FlagId::Overwrite),
                    skip_existing: given(&sc, FlagId::SkipExisting),
                }
            },
            Sub::Check => {
                assert(string_views(sc.positionals@)[0] == sc.positionals@[0]@);
                Commands::Check {
                    archive_path: owned(sc.positionals[0].as_str()),
                    use_cmp: given(&sc, FlagId::UseCmp),
                    force_delete: given(&sc, FlagId::ForceDelete),
                }
            },
        };
        Ok(ZksArgs { command })
    }

    /// Parses a command line known to be well formed.
    pub fn parse_from(argv: &[&str]) -> (r: ZksArgs)
        requires
            parses(arg_views(argv@)),
        ensures
            ({
                let v = arg_views(argv@);
                let s = sub_of(v[1])->0;
                command_of(s, scan(Dialect::Zks, s, v.subrange(2, v.len() as int)), r.command)
            }),
    {
        match Self::try_parse_from(argv) {
            Ok(a) => a,
            Err(_) => {
                proof {
                    assert(false);
                }
                vstd::pervasive::unreached()
            },
        }
    }
}

} // verus!
