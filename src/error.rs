use vstd::prelude::*;

verus! {

/// The failures the quiz engine reports.
#[derive(Clone, Copy, Debug, PartialEq, Eq, Structural)]
pub enum ErrorKind {
    /// `start` was called on an engine that is not idle.
    AlreadyStarted,
    /// The operation is not valid in the current state.
    InvalidTransition,
    /// Fewer eligible answers than choices per round.
    InsufficientLibrary,
    /// The library snapshot changed during the session.
    SnapshotInvalidated,
    /// The audio player could not start the excerpt.
    AudioStartFailed,
    /// An invariant was violated.
    Internal,
}

} // verus!
