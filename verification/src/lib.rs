//! A ledger that replays an ordered stream of financial events against
//! per-account state and produces a final snapshot of balances.
//!
//! The heart of the crate is the transaction-application state machine in
//! [`client_account_manager`]: the rules that turn a typed event (deposit,
//! withdrawal, dispute, resolve, chargeback) plus the current account and
//! journal state into a new state or a rejected operation. The mathematical
//! model of that state machine lives in [`model`], and every public operation
//! is specified against it.
//!
//! Monetary amounts are scaled integers (minor units), so arithmetic is exact.

pub mod client_account;
pub mod client_account_manager;
pub mod error;
pub mod model;
pub mod transaction;
