//! The ways in which an operation on the ledger can fail.

use vstd::prelude::*;

verus! {

/// Why an operation did not run to its end. With every error but
/// [`LedgerError::Io`] the ledger is exactly as it was before the operation.
#[derive(Clone, Copy, Debug, PartialEq, Eq, Structural)]
pub enum LedgerError {
    /// No collection carries the title or identifier that was asked for.
    NotFound,
    /// The request itself is malformed, such as a count that is not positive.
    Validation,
    /// The backend could not carry the operation out; nothing was committed.
    Backend,
    /// The export artifact could not be written. The allocation that it
    /// was to record is committed: the codes are marked as used and can be
    /// read from the ledger.
    Io,
}

impl LedgerError {
    /// Whether the operation may be tried again from the start as it was.
    /// That is so for a failure of the backend, after which nothing is
    /// committed, and for no other error.
    pub fn is_retryable(&self) -> (r: bool)
        ensures
            r == (*self == LedgerError::Backend),
    {
        match self {
            LedgerError::Backend => true,
            _ => false,
        }
    }
}

} // verus!
