//! Choosing the elevation helper (sudo, doas, ...) used to retry an
//! operation that needs root.

use vstd::prelude::*;
use crate::error::{copy_failure, lemma_marked_failure, permission_denied_spec, ZksError};
use crate::text::{ascii_lower, is_ws, owned, string_views, to_chars, words, words_exec, views_of};

verus! {

/// The helpers accepted when no configuration narrows the choice.
pub open spec fn default_whitelist() -> Seq<Seq<char>> {
    seq!["sudo"@, "doas"@, "sudo-rs"@, "run0"@, "pkexec"@, "please"@]
}

pub fn allowed_root_cmds() -> (r: Vec<String>)
    ensures
        string_views(r@) == default_whitelist(),
{
    let v = vec![owned("sudo"), owned("doas"), owned("sudo-rs"), owned("run0"), owned("pkexec"), owned("please")];
    assert(string_views(v@) =~= default_whitelist());
    v
}

pub open spec fn cmd_char_ok(c: char) -> bool {
    ('a' <= c && c <= 'z') || ('A' <= c && c <= 'Z') || ('0' <= c && c <= '9') || c == '_' || c == '-'
}

/// A helper name: non-empty, only `[A-Za-z0-9_-]`.
pub open spec fn valid_cmd_name(n: Seq<char>) -> bool {
    n.len() > 0 && forall|i: int| 0 <= i < n.len() ==> cmd_char_ok(#[trigger] n[i])
}

pub fn is_valid_cmd_name(name: &str) -> (r: bool)
    ensures
        r == valid_cmd_name(name@),
{
    let v = to_chars(name);
    if v.len() == 0 {
        return false;
    }
    let mut i: usize = 0;
    while i < v.len()
        invariant
            v@ == name@,
            i <= v@.len(),
            forall|j: int| 0 <= j < i ==> cmd_char_ok(#[trigger] v@[j]),
        decreases v@.len() - i,
    {
        let c = v[i];
        if !(('a' <= c && c <= 'z') || ('A' <= c && c <= 'Z') || ('0' <= c && c <= '9') || c == '_' || c == '-') {
            assert(!cmd_char_ok(v@[i as int]));
            return false;
        }
        i = i + 1;
    }
    true
}

/// The optional helper configuration: a preferred helper and a whitelist.
#[derive(Clone, Debug)]
pub struct RootCmdConfig {
    pub default: String,
    pub allowed: Vec<String>,
}

/// What `lstat` said about the configuration file.
#[derive(Clone, Copy, Debug, PartialEq, Eq, Structural)]
pub struct ConfigFileInfo {
    pub is_symlink: bool,
    pub owner_uid: u32,
    pub mode: u32,
}

/// The configuration is used only from a regular file owned by the caller
/// with mode exactly 0600, whose names are all valid and whose default is
/// one of the allowed names.
pub open spec fn config_acceptable(f: ConfigFileInfo, uid: u32, c: RootCmdConfig) -> bool {
    &&& !f.is_symlink
    &&& f.owner_uid == uid
    &&& f.mode & 0o777 == 0o600
    &&& forall|i: int| 0 <= i < c.allowed@.len() ==> valid_cmd_name(#[trigger] c.allowed@[i]@)
    &&& string_views(c.allowed@).contains(c.default@)
}

fn str_eq(a: &String, b: &String) -> (r: bool)
    ensures
        r == (a@ == b@),
{
    let x = to_chars(a.as_str());
    let y = to_chars(b.as_str());
    if x.len() != y.len() {
        return false;
    }
    let mut i: usize = 0;
    while i < x.len()
        invariant
            x@ == a@,
            y@ == b@,
            x@.len() == y@.len(),
            i <= x@.len(),
            forall|j: int| 0 <= j < i ==> x@[j] == y@[j],
        decreases x@.len() - i,
    {
        if x[i] != y[i] {
            assert(x@[i as int] != y@[i as int]);
            return false;
        }
        i = i + 1;
    }
    assert(x@ =~= y@);
    true
}

fn list_contains(list: &Vec<String>, s: &String) -> (r: bool)
    ensures
        r == string_views(list@).contains(s@),
{
    let mut i: usize = 0;
    while i < list.len()
        invariant
            i <= list@.len(),
            forall|j: int| 0 <= j < i ==> (#[trigger] list@[j])@ != s@,
        decreases list@.len() - i,
    {
        if str_eq(&list[i], s) {
            assert(string_views(list@)[i as int] == s@);
            return true;
        }
        i = i + 1;
    }
    assert forall|j: int| 0 <= j < string_views(list@).len() implies string_views(list@)[j] != s@ by {
        assert(string_views(list@)[j] == list@[j]@);
    }
    false
}

fn copy_strings(v: &Vec<String>) -> (r: Vec<String>)
    ensures
        string_views(r@) == string_views(v@),
{
    let mut out: Vec<String> = Vec::new();
    let mut i: usize = 0;
    while i < v.len()
        invariant
            i <= v@.len(),
            string_views(out@) == string_views(v@.subrange(0, i as int)),
        decreases v@.len() - i,
    {
        let s = owned(v[i].as_str());
        let ghost before = string_views(out@);
        out.push(s);
        assert(string_views(out@) =~= before.push(s@));
        assert(string_views(v@.subrange(0, i + 1)) =~= string_views(v@.subrange(0, i as int)).push(v@[i as int]@));
        i = i + 1;
    }
    assert(v@.subrange(0, i as int) =~= v@);
    out
}

/// Keeps the configuration only when it is acceptable.
pub fn validate_root_cmd_config(file: ConfigFileInfo, uid: u32, config: RootCmdConfig) -> (r: Option<RootCmdConfig>)
    ensures
        r is Some <==> config_acceptable(file, uid, config),
        r is Some ==> r->0 == config,
{
    if file.is_symlink || file.owner_uid != uid || file.mode & 0o777 != 0o600 {
        return None;
    }
    let mut i: usize = 0;
    while i < config.allowed.len()
        invariant
            i <= config.allowed@.len(),
            forall|j: int| 0 <= j < i ==> valid_cmd_name(#[trigger] config.allowed@[j]@),
        decreases config.allowed@.len() - i,
    {
        if !is_valid_cmd_name(config.allowed[i].as_str()) {
            return None;
        }
        i = i + 1;
    }
    if !list_contains(&config.allowed, &config.default) {
        return None;
    }
    Some(config)
}

/// The helper named by `ROOT_CMD`: its first whitespace-separated word,
/// when that word is whitelisted. Extra words are dropped.
pub open spec fn env_root_cmd_spec(env: Seq<char>, whitelist: Seq<Seq<char>>) -> Option<Seq<char>> {
    let w = words(env);
    if w.len() > 0 && whitelist.contains(w[0]) {
        Some(w[0])
    } else {
        None
    }
}

pub fn root_cmd_from_env(env: &str, whitelist: &Vec<String>) -> (r: Option<String>)
    ensures
        r is Some <==> env_root_cmd_spec(env@, string_views(whitelist@)) is Some,
        r is Some ==> r->0@ == env_root_cmd_spec(env@, string_views(whitelist@))->0,
{
    let w = words_exec(&to_chars(env));
    if w.len() == 0 {
        return None;
    }
    let first = crate::text::string_of(&w[0]);
    assert(first@ == words(env@)[0]);
    if list_contains(whitelist, &first) {
        Some(first)
    } else {
        None
    }
}

/// Relies on `which::which`: whether a program of that name is found on
/// `PATH`; the answer depends on the machine, so nothing more is stated.
#[verifier::external_body]
fn program_on_path(name: &str) -> (r: bool) {
    which::which(name).is_ok()
}

/// The whitelist in force: the configuration's when it lists any names,
/// else the default one.
pub open spec fn whitelist_spec(config: Option<RootCmdConfig>) -> Seq<Seq<char>> {
    match config {
        Some(c) => if c.allowed@.len() > 0 { string_views(c.allowed@) } else { default_whitelist() },
        None => default_whitelist(),
    }
}

/// Index of the first `true` in `found`, or its length.
pub open spec fn first_true(found: Seq<bool>) -> int
    decreases found.len(),
{
    if found.len() == 0 {
        0
    } else if found[0] {
        0
    } else {
        1 + first_true(found.drop_first())
    }
}

proof fn lemma_first_true(found: Seq<bool>, i: int)
    requires
        0 <= i <= found.len(),
        forall|j: int| 0 <= j < i ==> !found[j],
    ensures
        first_true(found) == i + first_true(found.subrange(i, found.len() as int)),
    decreases i,
{
    if i > 0 {
        let rest = found.drop_first();
        assert forall|j: int| 0 <= j < i - 1 implies !rest[j] by {
            assert(rest[j] == found[j + 1]);
        }
        lemma_first_true(rest, i - 1);
        assert(rest.subrange(i - 1, rest.len() as int) =~= found.subrange(i, found.len() as int));
    } else {
        assert(found.subrange(0, found.len() as int) =~= found);
    }
}

/// The helper to prefix privileged commands with, given what `PATH`
/// holds: nothing for root; otherwise a whitelisted `ROOT_CMD`, else the
/// configured default when it was found, else the first whitelisted helper
/// found (`found[k]` for whitelist entry `k`), else `sudo`.
pub open spec fn root_cmd_choice(
    is_root: bool,
    config: Option<RootCmdConfig>,
    env: Option<Seq<char>>,
    default_found: bool,
    found: Seq<bool>,
) -> Seq<Seq<char>> {
    let wl = whitelist_spec(config);
    if is_root {
        Seq::empty()
    } else if env is Some && env_root_cmd_spec(env->0, wl) is Some {
        seq![env_root_cmd_spec(env->0, wl)->0]
    } else if config is Some && config->0.default@.len() > 0 && default_found {
        seq![config->0.default@]
    } else if first_true(found) < found.len() {
        seq![wl[first_true(found)]]
    } else {
        seq!["sudo"@]
    }
}

pub open spec fn opt_str_view(o: Option<&str>) -> Option<Seq<char>> {
    match o {
        Some(s) => Some(s@),
        None => None,
    }
}

/// Applies `root_cmd_choice` to the results of the `PATH` lookups.
pub fn choose_root_cmd(
    is_root: bool,
    config: &Option<RootCmdConfig>,
    env_root_cmd: Option<&str>,
    default_found: bool,
    found: &Vec<bool>,
) -> (r: Vec<String>)
    requires
        found@.len() == whitelist_spec(*config).len(),
    ensures
        string_views(r@) == root_cmd_choice(is_root, *config, opt_str_view(env_root_cmd), default_found, found@),
{
    if is_root {
        let v: Vec<String> = Vec::new();
        assert(string_views(v@) =~= Seq::<Seq<char>>::empty());
        return v;
    }
    let whitelist: Vec<String> = match config {
        Some(c) => if c.allowed.len() > 0 { copy_strings(&c.allowed) } else { allowed_root_cmds() },
        None => allowed_root_cmds(),
    };
    assert(string_views(whitelist@) == whitelist_spec(*config));
    match env_root_cmd {
        Some(e) => match root_cmd_from_env(e, &whitelist) {
            Some(c) => {
                let v = vec![c];
                assert(string_views(v@) =~= root_cmd_choice(is_root, *config, opt_str_view(env_root_cmd), default_found, found@));
                return v;
            },
            None => {},
        },
        None => {},
    }
    match config {
        Some(c) => {
            if c.default.as_str().unicode_len() > 0 && default_found {
                let v = vec![owned(c.default.as_str())];
                assert(string_views(v@) =~= root_cmd_choice(is_root, *config, opt_str_view(env_root_cmd), default_found, found@));
                return v;
            }
        },
        None => {},
    }
    let mut i: usize = 0;
    while i < found.len()
        invariant
            !is_root,
            i <= found@.len(),
            found@.len() == whitelist@.len(),
            string_views(whitelist@) == whitelist_spec(*config),
            forall|j: int| 0 <= j < i ==> !found@[j],
            env_root_cmd is Some ==> env_root_cmd_spec(env_root_cmd->0@, whitelist_spec(*config)) is None,
            !(config is Some && config->0.default@.len() > 0 && default_found),
        decreases found@.len() - i,
    {
        if found[i] {
            proof {
                lemma_first_true(found@, i as int);
                assert(found@.subrange(i as int, found@.len() as int)[0]);
            }
            let v = vec![owned(whitelist[i].as_str())];
            assert(string_views(whitelist@)[i as int] == whitelist@[i as int]@);
            assert(string_views(v@) =~= root_cmd_choice(is_root, *config, opt_str_view(env_root_cmd), default_found, found@));
            return v;
        }
        i = i + 1;
    }
    proof {
        lemma_first_true(found@, i as int);
        assert(found@.subrange(i as int, found@.len() as int) =~= Seq::<bool>::empty());
    }
    let v = vec![owned("sudo")];
    assert(string_views(v@) =~= root_cmd_choice(is_root, *config, opt_str_view(env_root_cmd), default_found, found@));
    v
}

/// The helper command to prefix privileged commands with: the configured
/// default and every whitelisted helper are looked up on `PATH`, and
/// `choose_root_cmd` decides from the answers.
pub fn get_effective_root_cmd(is_root: bool, config: &Option<RootCmdConfig>, env_root_cmd: Option<&str>) -> (r: Vec<String>)
    ensures
        exists|default_found: bool, found: Seq<bool>|
            found.len() == whitelist_spec(*config).len() && string_views(r@) == root_cmd_choice(
                is_root,
                *config,
                opt_str_view(env_root_cmd),
                default_found,
                found,
            ),
{
    let whitelist: Vec<String> = match config {
        Some(c) => if c.allowed.len() > 0 { copy_strings(&c.allowed) } else { allowed_root_cmds() },
        None => allowed_root_cmds(),
    };
    let default_found = match config {
        Some(c) => c.default.as_str().unicode_len() > 0 && program_on_path(c.default.as_str()),
        None => false,
    };
    let mut found: Vec<bool> = Vec::new();
    let mut i: usize = 0;
    while i < whitelist.len()
        invariant
            i <= whitelist@.len(),
            found@.len() == i,
        decreases whitelist@.len() - i,
    {
        found.push(program_on_path(whitelist[i].as_str()));
        i = i + 1;
    }
    assert(string_views(whitelist@).len() == whitelist_spec(*config).len());
    choose_root_cmd(is_root, config, env_root_cmd, default_found, &found)
}

/// Helpers probed when an operation needs root, in order.
pub open spec fn superuser_tools() -> Seq<Seq<char>> {
    seq!["sudo"@, "doas"@, "run0"@, "pkexec"@]
}

/// The first helper, in the order of `superuser_tools`, that `found` marks
/// as present on `PATH`.
pub open spec fn first_superuser_spec(found: Seq<bool>) -> Option<Seq<char>> {
    if found.len() >= 1 && found[0] {
        Some(superuser_tools()[0])
    } else if found.len() >= 2 && found[1] {
        Some(superuser_tools()[1])
    } else if found.len() >= 3 && found[2] {
        Some(superuser_tools()[2])
    } else if found.len() >= 4 && found[3] {
        Some(superuser_tools()[3])
    } else {
        None
    }
}

/// Picks the helper from the results of looking each of `sudo`, `doas`,
/// `run0`, `pkexec` up on `PATH`, in that order.
pub fn first_superuser(found: &Vec<bool>) -> (r: Option<String>)
    requires
        found@.len() == 4,
    ensures
        r is Some <==> exists|k: int| 0 <= k < 4 && found@[k],
        r is Some ==> r->0@ == first_superuser_spec(found@)->0,
        r is None ==> first_superuser_spec(found@) is None,
{
    if found[0] {
        Some(owned("sudo"))
    } else if found[1] {
        Some(owned("doas"))
    } else if found[2] {
        Some(owned("run0"))
    } else if found[3] {
        Some(owned("pkexec"))
    } else {
        None
    }
}

/// The first of `sudo`, `doas`, `run0`, `pkexec` found on `PATH`: each is
/// looked up in turn and `first_superuser` picks from the answers.
pub fn get_superuser_command() -> (r: Option<String>)
    ensures
        exists|found: Seq<bool>| found.len() == 4 && (match first_superuser_spec(found) {
            Some(n) => r is Some && r->0@ == n,
            None => r is None,
        }),
{
    let found = vec![
        program_on_path("sudo"),
        program_on_path("doas"),
        program_on_path("run0"),
        program_on_path("pkexec"),
    ];
    let r = first_superuser(&found);
    assert(found@.len() == 4);
    r
}

pub open spec fn no_helper_text() -> Seq<char> {
    "Root privileges required but no elevation tool found."@
}

/// `None` for root; otherwise the helper to re-run through, or an error
/// when no helper can be found.
pub fn check_root_or_get_runner(is_root: bool) -> (r: Result<Option<String>, ZksError>)
    ensures
        is_root ==> r == Ok::<Option<String>, ZksError>(None),
        !is_root ==> exists|found: Seq<bool>| found.len() == 4 && (match first_superuser_spec(found) {
            Some(n) => r is Ok && r->Ok_0 is Some && r->Ok_0->0@ == n,
            None => r is Err && r->Err_0 == ZksError::OperationFailed(r->Err_0->OperationFailed_0)
                && r->Err_0->OperationFailed_0@ == no_helper_text(),
        }),
{
    if is_root {
        return Ok(None);
    }
    match get_superuser_command() {
        Some(runner) => Ok(Some(runner)),
        None => Err(ZksError::OperationFailed(owned(
            "Root privileges required but no elevation tool found.",
        ))),
    }
}

/// Whether a freeze target could be opened for reading.
#[derive(Clone, Debug)]
pub enum ReadProbe {
    Readable,
    Denied,
    Missing,
    Failed(crate::error::IoFailure),
}

pub open spec fn unreadable_text() -> Seq<char> {
    "Insufficient read permissions for one or more freeze targets"@
}

/// Requires every target to be readable. The first one that is not
/// decides: a missing target is an invalid path, a denied one is a
/// permission failure (which invites elevation), any other failure is
/// reported as it came.
pub fn ensure_read_permissions(paths: &Vec<String>, probes: &Vec<ReadProbe>) -> (r: Result<(), ZksError>)
    requires
        paths@.len() == probes@.len(),
    ensures
        r is Ok <==> forall|k: int| 0 <= k < probes@.len() ==> #[trigger] probes@[k] is Readable,
        r is Err ==> exists|k: int| 0 <= k < probes@.len() && !(probes@[k] is Readable)
            && (forall|j: int| 0 <= j < k ==> #[trigger] probes@[j] is Readable)
            && match probes@[k] {
                ReadProbe::Missing => r->Err_0 is InvalidPath && r->Err_0->InvalidPath_0@ == paths@[k]@,
                ReadProbe::Denied => r->Err_0 == ZksError::OperationFailed(r->Err_0->OperationFailed_0)
                    && r->Err_0->OperationFailed_0@ == unreadable_text() && permission_denied_spec(r->Err_0),
                ReadProbe::Failed(f) => r->Err_0 is IoError && r->Err_0->IoError_0.kind == f.kind
                    && r->Err_0->IoError_0.raw_os_error == f.raw_os_error
                    && r->Err_0->IoError_0.message@ == f.message@,
                ReadProbe::Readable => false,
            },
{
    let mut i: usize = 0;
    while i < probes.len()
        invariant
            paths@.len() == probes@.len(),
            i <= probes@.len(),
            forall|j: int| 0 <= j < i ==> #[trigger] probes@[j] is Readable,
        decreases probes@.len() - i,
    {
        match &probes[i] {
            ReadProbe::Readable => {},
            ReadProbe::Missing => {
                return Err(ZksError::InvalidPath(owned(paths[i].as_str())));
            },
            ReadProbe::Denied => {
                let msg = owned("Insufficient read permissions for one or more freeze targets");
                proof {
                    reveal_strlit("Insufficient read permissions for one or more freeze targets");
                    reveal_strlit("insufficient read permissions");
                    let l = ascii_lower(msg@);
                    assert(l.subrange(0, 29) =~= "insufficient read permissions"@);
                    lemma_marked_failure(msg@, "insufficient read permissions"@, 0);
                }
                return Err(ZksError::OperationFailed(msg));
            },
            ReadProbe::Failed(f) => {
                return Err(ZksError::IoError(copy_failure(f)));
            },
        }
        i = i + 1;
    }
    Ok(())
}

} // verus!
