use vstd::prelude::*;

verus! {

/// Why the engine rejected an event.
///
/// Every rejection is per-event and recoverable: the engine returns the error
/// to its caller and never aborts the overall run. The caller decides whether
/// to log, count or drop it.
#[derive(Clone, Copy, Debug, PartialEq, Eq, Structural)]
pub enum ProcessingError {
    /// The event's kind tag is not one of the five known kinds.
    InvalidKind,
    /// The client's account is locked; it rejects every event.
    AccountLocked,
    /// A deposit or withdrawal carried no amount, or a disputed journal entry
    /// carries none (the latter is checked defensively and cannot arise).
    MissingAmount,
    /// A withdrawal asked for more than the available funds.
    InsufficientFunds,
    /// A dispute, resolve or chargeback referenced a transaction identifier
    /// with no journal entry.
    TransactionNotFound,
    /// The referenced journal entry belongs to a different client.
    ClientMismatch,
    /// A resolve or chargeback referenced an entry that is not under dispute.
    NotDisputed,
}

} // verus!
