//! The states of a transaction.

use vstd::prelude::*;

verus! {

/// Where a transaction stands.
#[derive(Debug, Clone, Copy, PartialEq, Eq, Structural)]
pub enum TransactionStatus {
    Starting,
    InProgress,
    Committed,
    Aborted,
}

impl TransactionStatus {
    /// Whether the transaction has ended.
    pub fn is_finished(&self) -> (r: bool)
        ensures
            r == (*self == TransactionStatus::Committed || *self == TransactionStatus::Aborted),
    {
        match self {
            TransactionStatus::Committed => true,
            TransactionStatus::Aborted => true,
            _ => false,
        }
    }
}

} // verus!
