use vstd::prelude::*;

verus! {

/// What can go wrong while locating a process or module, scanning it, or
/// reading and writing its memory.
#[derive(Clone, Copy, Debug, PartialEq, Eq, Structural)]
pub enum ToyArmsExternalError {
    /// A signature string holds a token that is neither `?` nor two
    /// hexadecimal digits, or holds no token at all.
    MalformedPattern,
    /// The snapshot of processes or modules could not be taken.
    SnapshotFailed,
    /// The snapshot yielded no first entry.
    EntryNotFound,
    /// Retrieving the next entry failed for another reason than the end of
    /// the list.
    EnumerationError,
    /// No running process has the requested name.
    ProcessNotFound,
    /// The process has no loaded module with the requested name.
    ModuleNotFound,
    /// A name or path held in an entry is not valid UTF-8.
    InvalidName,
    /// Copying memory out of the target process failed.
    ReadProcessMemoryFailed,
    /// Copying memory into the target process failed.
    WriteProcessMemoryFailed,
}

impl ToyArmsExternalError {
    /// A short description of the error.
    pub fn message(&self) -> (r: String) {
        let s = match self {
            ToyArmsExternalError::MalformedPattern => "Malformed pattern",
            ToyArmsExternalError::SnapshotFailed => "Taking snapshot FAILED.",
            ToyArmsExternalError::EntryNotFound => "Snapshot holds no entry",
            ToyArmsExternalError::EnumerationError => "Enumerating snapshot entries failed",
            ToyArmsExternalError::ProcessNotFound => "Process not found",
            ToyArmsExternalError::ModuleNotFound => "Module not found",
            ToyArmsExternalError::InvalidName => "Name is not valid UTF-8",
            ToyArmsExternalError::ReadProcessMemoryFailed => "ReadProcessMemory failed",
            ToyArmsExternalError::WriteProcessMemoryFailed => "WriteProcessMemory failed",
        };
        s.to_string()
    }
}

} // verus!
