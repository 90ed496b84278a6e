use vstd::prelude::*;

verus! {

/// The five kinds of event the engine accepts.
///
/// The kinds form a closed tagged union with exhaustive matching, so adding or
/// removing a kind is a compile-time-checked change.
#[derive(Clone, Copy, Debug, PartialEq, Eq, Structural)]
pub enum TransactionType {
    Deposit,
    Withdrawal,
    Dispute,
    Resolve,
    Chargeback,
}

/// The kind named by an input tag: exactly the five lowercase kind strings,
/// anything else names no kind at all.
pub open spec fn kind_of(s: Seq<char>) -> Option<TransactionType> {
    if s == "deposit"@ {
        Some(TransactionType::Deposit)
    } else if s == "withdrawal"@ {
        Some(TransactionType::Withdrawal)
    } else if s == "dispute"@ {
        Some(TransactionType::Dispute)
    } else if s == "resolve"@ {
        Some(TransactionType::Resolve)
    } else if s == "chargeback"@ {
        Some(TransactionType::Chargeback)
    } else {
        None
    }
}

impl TransactionType {
    /// Parse a kind tag. Case and whitespace handling is the caller's
    /// responsibility: only the exact lowercase tags are recognized.
    pub fn get_from_str(input: &str) -> (kind: Option<TransactionType>)
        ensures
            kind == kind_of(input@),
    {
        let s = input.to_owned();
        if s == "deposit".to_owned() {
            Some(TransactionType::Deposit)
        } else if s == "withdrawal".to_owned() {
            Some(TransactionType::Withdrawal)
        } else if s == "dispute".to_owned() {
            Some(TransactionType::Dispute)
        } else if s == "resolve".to_owned() {
            Some(TransactionType::Resolve)
        } else if s == "chargeback".to_owned() {
            Some(TransactionType::Chargeback)
        } else {
            None
        }
    }
}

/// An event record and, once a deposit or withdrawal has been accepted, the
/// journal entry kept for it so that later disputes can reference it.
///
/// `amount` is in minor units. Deposit and withdrawal require it; dispute,
/// resolve and chargeback ignore it and operate purely by `id` lookup.
#[derive(Clone, Copy, Debug)]
pub struct Transaction {
    pub id: u32,
    pub client_id: u16,
    pub transaction_type: TransactionType,
    pub amount: Option<u64>,
    pub is_disputed: bool,
}

} // verus!
