//! Failure vocabulary shared by row construction, serialization and the
//! segment writer. Each kind is a distinct variant carrying the data a caller
//! needs for diagnosis; nothing is conflated and nothing aborts the process.

use vstd::prelude::*;

verus! {

/// Row construction failure: the number of accumulated fields did not match
/// the arity the builder was declared with.
#[derive(Clone, Copy, Debug, PartialEq, Eq, Structural)]
pub enum BuildError {
    ArityMismatch { expected: usize, actual: usize },
}

/// Serialization failure: the caller-provided buffer cannot hold the value's
/// full encoding.
#[derive(Clone, Copy, Debug, PartialEq, Eq, Structural)]
pub enum MarshalError {
    BufferTooSmall { needed: usize, available: usize },
}

/// Segment writing failure.
#[derive(Clone, Copy, Debug, PartialEq, Eq, Structural)]
pub enum WriteError {
    /// The writer's one-shot row source was already taken by an earlier call.
    AlreadyConsumed,
    /// A row could not be encoded into the scratch buffer sized for it.
    SerializationFailure { row_index: usize },
    /// The sink failed to accept or persist bytes; the rows already appended
    /// remain in the file (the format is not transactional).
    IoFailure,
    /// The destination file could not be opened or created.
    CreationFailure,
}

} // verus!
