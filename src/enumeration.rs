use vstd::prelude::*;
use vstd::slice::slice_to_vec;
use vstd::string::StringSliceAdditionalSpecFns;
use crate::error::ToyArmsExternalError;
use crate::utils::{until_nul, zero_terminated_equals};

verus! {

/// The status that the operating system reports when a snapshot has no more
/// entries to hand out.
pub const ERROR_NO_MORE_FILES: u32 = 18;

/// What a snapshot lists.
#[derive(Clone, Copy, Debug, PartialEq, Eq, Structural)]
pub enum SnapshotKind {
    /// The running processes.
    Processes,
    /// The modules loaded in one process.
    Modules,
}

/// What one request for the first or the next entry of a snapshot gave.
#[derive(Debug)]
pub enum Retrieval {
    /// An entry, given by its fixed-size, zero-terminated name field.
    Entry(Vec<u8>),
    /// No entry; the operating system's status code says why.
    Failed(u32),
}

/// Where an enumeration stands.
#[derive(Clone, Copy, Debug, PartialEq, Eq, Structural)]
pub enum EnumState {
    /// The snapshot has not been taken yet.
    Start,
    /// Waiting for the first entry.
    AwaitingFirst,
    /// Waiting for the next entry.
    AwaitingNext,
    /// The last entry handed in has the requested name.
    Found,
    /// The enumeration ended without a match, for the reason given.
    Failed(ToyArmsExternalError),
}

/// What the caller has to do next.
#[derive(Clone, Copy, Debug, PartialEq, Eq, Structural)]
pub enum EnumAction {
    /// Retrieve the snapshot's first entry.
    RequestFirst,
    /// Retrieve the snapshot's next entry.
    RequestNext,
    /// Build the result from the entry just handed in.
    Found,
    /// Release the snapshot and return this error.
    Stop(ToyArmsExternalError),
}

/// The error that reports an exhausted snapshot of the given kind.
pub open spec fn not_found_error(kind: SnapshotKind) -> ToyArmsExternalError {
    match kind {
        SnapshotKind::Processes => ToyArmsExternalError::ProcessNotFound,
        SnapshotKind::Modules => ToyArmsExternalError::ModuleNotFound,
    }
}

/// The state an enumeration moves to, and the action it asks for, when a
/// retrieval comes back while it waits for an entry.
pub open spec fn retrieval_step(
    kind: SnapshotKind,
    target: Seq<u8>,
    state: EnumState,
    retrieval: Retrieval,
) -> (EnumState, EnumAction) {
    match retrieval {
        Retrieval::Entry(name) => if until_nul(name@) == target {
            (EnumState::Found, EnumAction::Found)
        } else {
            (EnumState::AwaitingNext, EnumAction::RequestNext)
        },
        Retrieval::Failed(code) => {
            let e = if state == EnumState::AwaitingFirst {
                ToyArmsExternalError::EntryNotFound
            } else if code == ERROR_NO_MORE_FILES {
                not_found_error(kind)
            } else {
                ToyArmsExternalError::EnumerationError
            };
            (EnumState::Failed(e), EnumAction::Stop(e))
        },
    }
}

/// The search of a process or module snapshot for an entry with a given
/// name.
///
/// The caller takes the snapshot and retrieves the entries; this type
/// decides after each step what comes next. An exhausted snapshot ends as
/// "not found", any other failed retrieval as an enumeration error, and no
/// entry is compared after a failure.
pub struct SnapshotEnumeration {
    kind: SnapshotKind,
    target: Vec<u8>,
    state: EnumState,
}

impl SnapshotEnumeration {
    pub closed spec fn spec_kind(&self) -> SnapshotKind {
        self.kind
    }

    /// The bytes of the name searched for.
    pub closed spec fn spec_target(&self) -> Seq<u8> {
        self.target@
    }

    pub closed spec fn spec_state(&self) -> EnumState {
        self.state
    }

    /// Starts a search of a snapshot of `kind` for the entry named `target`.
    pub fn new(kind: SnapshotKind, target: &str) -> (r: Self)
        ensures
            r.spec_kind() == kind,
            r.spec_target() == target.spec_bytes(),
            r.spec_state() == EnumState::Start,
    {
        SnapshotEnumeration { kind, target: slice_to_vec(target.as_bytes()), state: EnumState::Start }
    }

    pub fn state(&self) -> (r: EnumState)
        ensures
            r == self.spec_state(),
    {
        self.state
    }

    /// Records whether the snapshot could be taken.
    pub fn snapshot_taken(&mut self, taken: bool) -> (action: EnumAction)
        requires
            old(self).spec_state() == EnumState::Start,
        ensures
            final(self).spec_kind() == old(self).spec_kind(),
            final(self).spec_target() == old(self).spec_target(),
            taken ==> final(self).spec_state() == EnumState::AwaitingFirst && action
                == EnumAction::RequestFirst,
            !taken ==> final(self).spec_state() == EnumState::Failed(
                ToyArmsExternalError::SnapshotFailed,
            ) && action == EnumAction::Stop(ToyArmsExternalError::SnapshotFailed),
    {
        if taken {
            self.state = EnumState::AwaitingFirst;
            EnumAction::RequestFirst
        } else {
            self.state = EnumState::Failed(ToyArmsExternalError::SnapshotFailed);
            EnumAction::Stop(ToyArmsExternalError::SnapshotFailed)
        }
    }

    /// Records what the request for the first or the next entry gave.
    pub fn entry_retrieved(&mut self, retrieval: &Retrieval) -> (action: EnumAction)
        requires
            old(self).spec_state() == EnumState::AwaitingFirst || old(self).spec_state()
                == EnumState::AwaitingNext,
        ensures
            final(self).spec_kind() == old(self).spec_kind(),
            final(self).spec_target() == old(self).spec_target(),
            (final(self).spec_state(), action) == retrieval_step(
                old(self).spec_kind(),
                old(self).spec_target(),
                old(self).spec_state(),
                *retrieval,
            ),
    {
        match retrieval {
            Retrieval::Entry(name) => {
                if zero_terminated_equals(name.as_slice(), self.target.as_slice()) {
                    self.state = EnumState::Found;
                    EnumAction::Found
                } else {
                    self.state = EnumState::AwaitingNext;
                    EnumAction::RequestNext
                }
            },
            Retrieval::Failed(code) => {
                let e = if self.state == EnumState::AwaitingFirst {
                    ToyArmsExternalError::EntryNotFound
                } else if *code == ERROR_NO_MORE_FILES {
                    match self.kind {
                        SnapshotKind::Processes => ToyArmsExternalError::ProcessNotFound,
                        SnapshotKind::Modules => ToyArmsExternalError::ModuleNotFound,
                    }
                } else {
                    ToyArmsExternalError::EnumerationError
                };
                self.state = EnumState::Failed(e);
                EnumAction::Stop(e)
            },
        }
    }
}

} // verus!
