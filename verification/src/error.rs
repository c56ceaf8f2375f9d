//! The ways in which a run can fail.

use vstd::prelude::*;

verus! {

/// A fatal condition of the current run.
///
/// None of these can be recovered from: whoever receives one must end the
/// run, and nothing that the run has produced so far may be relied upon.
#[derive(Debug, Clone, Copy, PartialEq, Eq, Structural)]
pub enum HostError {
    /// An input queue was read after its last element had been taken.
    InputExhausted,
    /// A value was read through the accessor of the other kind.
    TypeMismatch,
    /// An operation was requested in a state that does not allow it.
    PreconditionViolation,
    /// An assertion made by the guest was false.
    AssertionFailed,
}

} // verus!
