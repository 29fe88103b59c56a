//! The failures that the library reports.

use vstd::prelude::*;

verus! {

/// A caller's input breaks a precondition of the request. Never retried.
#[derive(Debug, PartialEq, Eq)]
pub enum ValidationError {
    /// The requested limit is below 1.
    NonPositiveLimit,
    /// A filter was supplied under a name that the engine does not know.
    UnrecognizedFilter(String),
}

/// Why the store could not answer.
#[derive(Clone, Copy, Debug, PartialEq, Eq, Structural)]
pub enum StoreErrorKind {
    ConnectionFailure,
    ConstraintViolation,
    Timeout,
    Unknown,
}

/// A failure of the store. The engine hands it on unchanged.
#[derive(Clone, Copy, Debug, PartialEq, Eq, Structural)]
pub struct StoreError {
    pub kind: StoreErrorKind,
}

/// Two parts of one request disagree with each other. This is a defect, not a
/// condition that a user or the data can cause.
#[derive(Clone, Copy, Debug, PartialEq, Eq, Structural)]
pub enum InternalConsistencyError {
    /// Media were grouped under a business that is not part of the batch.
    UnknownBusiness { business_id: i32 },
    /// The store answered a question that the request had not asked.
    UnexpectedAnswer,
}

/// Everything that can end a listing request without a result.
#[derive(Debug, PartialEq, Eq)]
pub enum ListError {
    Validation(ValidationError),
    Store(StoreError),
    Internal(InternalConsistencyError),
}

/// Why a caller was not let in.
#[derive(Clone, Copy, Debug, PartialEq, Eq, Structural)]
pub enum AuthError {
    MissingCredentials,
    ExpriedCredentials,
    WrongCredentials,
    WrongSignature,
}

} // verus!
