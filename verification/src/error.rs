//! The ways in which an operation on the target can fail.

use vstd::prelude::*;

verus! {

/// Why an operation did not give its result. No failure ends the caller's
/// own process: each is handed back as a value.
#[derive(Clone, Copy, Debug, PartialEq, Eq, Structural)]
pub enum MemoryError {
    /// No running process has the wanted name.
    ProcessNotFound,
    /// The process has no module of the wanted name.
    ModuleNotFound,
    /// The process could not be opened.
    HandleAcquisitionFailure,
    /// The state of a page could not be queried.
    MemoryQueryFailure,
    /// The protection of a range could not be changed.
    ProtectionChangeFailure,
    /// Bytes could not be copied out of the target.
    ReadFailure,
    /// Bytes could not be copied into the target.
    WriteFailure,
    /// The signature stands nowhere in the module.
    PatternNotFound,
    /// The pointer width of the target could not be determined.
    BitnessQueryFailure,
}

} // verus!
