//! Transactional cleanup: the registry a signal handler consults, and the
//! scoped releases of LUKS and plain create transactions.

use vstd::prelude::*;
use crate::text::owned;

verus! {

/// One cleanup step, to be performed in list order.
#[derive(Clone, Debug)]
pub enum CleanupAction {
    /// Stop this process's children so they let go of the mapper device.
    KillChildren,
    /// Flush filesystem buffers.
    Sync,
    /// Wait for udev to finish processing events.
    SettleUdev,
    /// Close a mapper (retrying while it is busy).
    CloseMapper(String),
    /// Delete an incomplete output file.
    RemoveFile(String),
}

/// What a signal handler must release: at most one incomplete output file
/// and at most one open mapper.
#[derive(Clone, Debug)]
pub struct CleanupRegistry {
    pub path: Option<String>,
    pub mapper: Option<String>,
}

pub open spec fn opt_seq(o: Option<String>) -> Option<Seq<char>> {
    match o {
        Some(s) => Some(s@),
        None => None,
    }
}

impl CleanupRegistry {
    pub fn new() -> (r: CleanupRegistry)
        ensures
            r.path is None && r.mapper is None,
    {
        CleanupRegistry { path: None, mapper: None }
    }

    pub fn register_cleanup_path(&mut self, path: &str)
        ensures
            opt_seq(final(self).path) == Some(path@),
            opt_seq(final(self).mapper) == opt_seq(old(self).mapper),
    {
        self.path = Some(owned(path));
    }

    pub fn clear_cleanup_path(&mut self)
        ensures
            final(self).path is None,
            opt_seq(final(self).mapper) == opt_seq(old(self).mapper),
    {
        self.path = None;
    }

    pub fn register_cleanup_mapper(&mut self, name: &str)
        ensures
            opt_seq(final(self).mapper) == Some(name@),
            opt_seq(final(self).path) == opt_seq(old(self).path),
    {
        self.mapper = Some(owned(name));
    }

    pub fn clear_cleanup_mapper(&mut self)
        ensures
            final(self).mapper is None,
            opt_seq(final(self).path) == opt_seq(old(self).path),
    {
        self.mapper = None;
    }

    pub fn get_cleanup_path(&self) -> (r: Option<String>)
        ensures
            opt_seq(r) == opt_seq(self.path),
    {
        match &self.path {
            Some(p) => Some(owned(p.as_str())),
            None => None,
        }
    }

    pub fn get_cleanup_mapper(&self) -> (r: Option<String>)
        ensures
            opt_seq(r) == opt_seq(self.mapper),
    {
        match &self.mapper {
            Some(m) => Some(owned(m.as_str())),
            None => None,
        }
    }

    /// Takes everything registered, for an interrupt: the registry is left
    /// empty (so a scoped release that runs later does not repeat the work)
    /// and the returned steps stop children and close the mapper before
    /// deleting the incomplete output file.
    pub fn take_for_interrupt(&mut self) -> (r: Vec<CleanupAction>)
        ensures
            final(self).path is None && final(self).mapper is None,
            r@.len() == (if old(self).mapper is Some { 2int } else { 0int }) + (if old(self).path is Some { 1int } else { 0int }),
            old(self).mapper is Some ==> r@[0] is KillChildren && r@[1] is CloseMapper
                && r@[1]->CloseMapper_0@ == old(self).mapper->0@,
            old(self).path is Some ==> r@.last() is RemoveFile && r@.last()->RemoveFile_0@ == old(self).path->0@,
    {
        let mut v: Vec<CleanupAction> = Vec::new();
        match &self.mapper {
            Some(m) => {
                v.push(CleanupAction::KillChildren);
                v.push(CleanupAction::CloseMapper(owned(m.as_str())));
            },
            None => {},
        }
        match &self.path {
            Some(p) => {
                v.push(CleanupAction::RemoveFile(owned(p.as_str())));
            },
            None => {},
        }
        self.path = None;
        self.mapper = None;
        v
    }
}

/// A LUKS create in progress: it owns the output file until it is marked
/// successful, and at most one open mapper.
#[derive(Clone, Debug)]
pub struct LuksTransaction {
    pub output_path: String,
    pub mapper_name: Option<String>,
    pub success: bool,
}

impl LuksTransaction {
    /// Starts the transaction and registers the output for interrupt cleanup.
    pub fn new(output_path: &str, registry: &mut CleanupRegistry) -> (r: LuksTransaction)
        ensures
            r.output_path@ == output_path@,
            r.mapper_name is None,
            !r.success,
            opt_seq(final(registry).path) == Some(output_path@),
            opt_seq(final(registry).mapper) == opt_seq(old(registry).mapper),
    {
        registry.register_cleanup_path(output_path);
        LuksTransaction { output_path: owned(output_path), mapper_name: None, success: false }
    }

    /// Records the opened mapper, here and in the registry.
    pub fn set_mapper(&mut self, name: &str, registry: &mut CleanupRegistry)
        ensures
            opt_seq(final(self).mapper_name) == Some(name@),
            final(self).output_path@ == old(self).output_path@,
            final(self).success == old(self).success,
            opt_seq(final(registry).mapper) == Some(name@),
            opt_seq(final(registry).path) == opt_seq(old(registry).path),
    {
        registry.register_cleanup_mapper(name);
        self.mapper_name = Some(owned(name));
    }

    pub fn set_success(&mut self)
        ensures
            final(self).success,
            final(self).output_path@ == old(self).output_path@,
            opt_seq(final(self).mapper_name) == opt_seq(old(self).mapper_name),
    {
        self.success = true;
    }

    /// The scoped release. Registry entries are cleared first. If the
    /// registry no longer holds this mapper, an interrupt already closed
    /// it and it is not closed again; otherwise the mapper is closed after
    /// a sync and a udev settle. An unsuccessful transaction then deletes
    /// its output file.
    pub fn release(&self, registry: &mut CleanupRegistry) -> (r: Vec<CleanupAction>)
        ensures
            final(registry).path is None && final(registry).mapper is None,
            ({
                let closes = self.mapper_name is Some && opt_seq(old(registry).mapper) == opt_seq(self.mapper_name);
                let n = (if closes { 3int } else { 0int }) + (if !self.success { 1int } else { 0int });
                &&& r@.len() == n
                &&& closes ==> r@[0] is Sync && r@[1] is SettleUdev && r@[2] is CloseMapper
                    && r@[2]->CloseMapper_0@ == self.mapper_name->0@
                &&& !self.success ==> r@.last() is RemoveFile && r@.last()->RemoveFile_0@ == self.output_path@
            }),
    {
        let mut v: Vec<CleanupAction> = Vec::new();
        let registered = registry.get_cleanup_mapper();
        registry.clear_cleanup_path();
        registry.clear_cleanup_mapper();
        match (&self.mapper_name, &registered) {
            (Some(m), Some(reg)) => {
                let a = crate::text::to_chars(m.as_str());
                let b = crate::text::to_chars(reg.as_str());
                if seq_eq(&a, &b) {
                    v.push(CleanupAction::Sync);
                    v.push(CleanupAction::SettleUdev);
                    v.push(CleanupAction::CloseMapper(owned(m.as_str())));
                }
            },
            _ => {},
        }
        if !self.success {
            v.push(CleanupAction::RemoveFile(owned(self.output_path.as_str())));
        }
        v
    }
}

fn seq_eq(a: &Vec<char>, b: &Vec<char>) -> (r: bool)
    ensures
        r == (a@ == b@),
{
    if a.len() != b.len() {
        return false;
    }
    let mut i: usize = 0;
    while i < a.len()
        invariant
            a@.len() == b@.len(),
            i <= a@.len(),
            forall|j: int| 0 <= j < i ==> a@[j] == b@[j],
        decreases a@.len() - i,
    {
        if a[i] != b[i] {
            assert(a@[i as int] != b@[i as int]);
            return false;
        }
        i = i + 1;
    }
    assert(a@ =~= b@);
    true
}

/// A plain create in progress: it owns the output file until it is marked
/// successful.
#[derive(Clone, Debug)]
pub struct CreateTransaction {
    pub output_path: String,
    pub success: bool,
}

impl CreateTransaction {
    pub fn new(output_path: &str, registry: &mut CleanupRegistry) -> (r: CreateTransaction)
        ensures
            r.output_path@ == output_path@,
            !r.success,
            opt_seq(final(registry).path) == Some(output_path@),
            opt_seq(final(registry).mapper) == opt_seq(old(registry).mapper),
    {
        registry.register_cleanup_path(output_path);
        CreateTransaction { output_path: owned(output_path), success: false }
    }

    pub fn set_success(&mut self)
        ensures
            final(self).success,
            final(self).output_path@ == old(self).output_path@,
    {
        self.success = true;
    }

    /// The scoped release: the registry entry is cleared, then an
    /// unsuccessful transaction deletes its output file.
    pub fn release(&self, registry: &mut CleanupRegistry) -> (r: Vec<CleanupAction>)
        ensures
            final(registry).path is None,
            opt_seq(final(registry).mapper) == opt_seq(old(registry).mapper),
            self.success ==> r@.len() == 0,
            !self.success ==> r@.len() == 1 && r@[0] is RemoveFile && r@[0]->RemoveFile_0@ == self.output_path@,
    {
        registry.clear_cleanup_path();
        let mut v: Vec<CleanupAction> = Vec::new();
        if !self.success {
            v.push(CleanupAction::RemoveFile(owned(self.output_path.as_str())));
        }
        v
    }
}

} // verus!
