//! Error taxonomy of the session registry.

use vstd::prelude::*;

verus! {

/// Failure of a storage operation.
///
/// `RecordNotFound` is not represented here: a lookup that matches no row
/// returns `None`, which is an expected outcome, not an error.
#[derive(Clone, Copy, Debug, PartialEq, Eq, Structural)]
pub enum StorageError {
    /// Opening the database, or preparing or running a statement, failed.
    Unavailable,
    /// An insert collided with an existing unique key: either the
    /// workspace path or the session-file path is already registered.
    ConstraintViolation,
}

} // verus!
