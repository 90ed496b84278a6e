//! Unit tests of the leaf types: accounts and event-kind parsing.

use payment_engine::client_account::ClientAccount;
use payment_engine::transaction::TransactionType;

#[test]
fn new_account_is_empty_and_unlocked() {
    let account = ClientAccount::new(42);
    assert_eq!(account.get_id(), 42);
    assert_eq!(account.get_available_amount(), 0);
    assert_eq!(account.get_held_amount(), 0);
    assert_eq!(account.get_total_amount(), 0);
    assert!(!account.get_is_locked());
}

#[test]
fn adjustments_move_balances() {
    let mut account = ClientAccount::new(1);
    account.adjust_available_amount(25);
    account.adjust_held_amount(10);
    account.adjust_available_amount(-5);
    assert_eq!(account.get_available_amount(), 20);
    assert_eq!(account.get_held_amount(), 10);
    assert_eq!(account.get_total_amount(), 30);
}

#[test]
fn total_cannot_overflow() {
    let mut account = ClientAccount::new(1);
    account.adjust_available_amount(i64::MAX);
    account.adjust_held_amount(i64::MAX);
    assert_eq!(account.get_total_amount(), i64::MAX as i128 * 2);
}

#[test]
fn lock_flag_round_trips() {
    let mut account = ClientAccount::new(1);
    account.set_is_locked(true);
    assert!(account.get_is_locked());
    account.set_is_locked(false);
    assert!(!account.get_is_locked());
}

#[test]
fn known_kind_strings_parse() {
    assert_eq!(
        TransactionType::get_from_str("deposit"),
        Some(TransactionType::Deposit)
    );
    assert_eq!(
        TransactionType::get_from_str("withdrawal"),
        Some(TransactionType::Withdrawal)
    );
    assert_eq!(
        TransactionType::get_from_str("dispute"),
        Some(TransactionType::Dispute)
    );
    assert_eq!(
        TransactionType::get_from_str("resolve"),
        Some(TransactionType::Resolve)
    );
    assert_eq!(
        TransactionType::get_from_str("chargeback"),
        Some(TransactionType::Chargeback)
    );
}

#[test]
fn unknown_kind_strings_do_not_parse() {
    assert_eq!(TransactionType::get_from_str(""), None);
    assert_eq!(TransactionType::get_from_str("Deposit"), None);
    assert_eq!(TransactionType::get_from_str(" deposit"), None);
    assert_eq!(TransactionType::get_from_str("refund"), None);
}
