//! End-to-end tests of the processing engine: the dispute lifecycle, the
//! lock semantics, and every rejection kind.

use payment_engine::client_account::ClientAccount;
use payment_engine::client_account_manager::ClientAccountManager;
use payment_engine::error::ProcessingError;

/// The snapshot entry for one client, from the unordered account list.
fn account(manager: &ClientAccountManager, id: u16) -> ClientAccount {
    manager
        .get_client_list()
        .into_iter()
        .find(|a| a.get_id() == id)
        .expect("account should exist")
}

fn deposited_ten() -> ClientAccountManager {
    let mut manager = ClientAccountManager::new();
    assert_eq!(manager.process_transaction("deposit", 1, 1, Some(10)), Ok(()));
    manager
}

#[test]
fn scenario_deposit_credits_available() {
    let manager = deposited_ten();
    let a = account(&manager, 1);
    assert_eq!(a.get_available_amount(), 10);
    assert_eq!(a.get_held_amount(), 0);
    assert_eq!(a.get_total_amount(), 10);
    assert!(!a.get_is_locked());
}

#[test]
fn scenario_overdraft_rejected() {
    let mut manager = deposited_ten();
    assert_eq!(
        manager.process_transaction("withdrawal", 1, 2, Some(15)),
        Err(ProcessingError::InsufficientFunds)
    );
    let a = account(&manager, 1);
    assert_eq!(a.get_available_amount(), 10);
    assert_eq!(a.get_held_amount(), 0);
    assert!(!a.get_is_locked());
}

#[test]
fn scenario_dispute_holds_funds() {
    let mut manager = deposited_ten();
    assert_eq!(manager.process_transaction("dispute", 1, 1, None), Ok(()));
    let a = account(&manager, 1);
    assert_eq!(a.get_available_amount(), 0);
    assert_eq!(a.get_held_amount(), 10);
    assert_eq!(a.get_total_amount(), 10);
}

#[test]
fn scenario_resolve_releases_funds() {
    let mut manager = deposited_ten();
    assert_eq!(manager.process_transaction("dispute", 1, 1, None), Ok(()));
    assert_eq!(manager.process_transaction("resolve", 1, 1, None), Ok(()));
    let a = account(&manager, 1);
    assert_eq!(a.get_available_amount(), 10);
    assert_eq!(a.get_held_amount(), 0);
    assert_eq!(a.get_total_amount(), 10);
}

#[test]
fn scenario_chargeback_seizes_funds_and_locks() {
    let mut manager = deposited_ten();
    assert_eq!(manager.process_transaction("dispute", 1, 1, None), Ok(()));
    assert_eq!(manager.process_transaction("chargeback", 1, 1, None), Ok(()));
    let a = account(&manager, 1);
    assert_eq!(a.get_available_amount(), 0);
    assert_eq!(a.get_held_amount(), 0);
    assert_eq!(a.get_total_amount(), 0);
    assert!(a.get_is_locked());
}

#[test]
fn scenario_locked_account_rejects_everything() {
    let mut manager = deposited_ten();
    assert_eq!(manager.process_transaction("dispute", 1, 1, None), Ok(()));
    assert_eq!(manager.process_transaction("chargeback", 1, 1, None), Ok(()));
    for (kind, tx, amount) in [
        ("deposit", 3, Some(5)),
        ("withdrawal", 4, Some(1)),
        ("dispute", 1, None),
        ("resolve", 1, None),
        ("chargeback", 1, None),
    ] {
        assert_eq!(
            manager.process_transaction(kind, 1, tx, amount),
            Err(ProcessingError::AccountLocked)
        );
        let a = account(&manager, 1);
        assert_eq!(a.get_available_amount(), 0);
        assert_eq!(a.get_held_amount(), 0);
        assert!(a.get_is_locked());
    }
}

#[test]
fn dispute_of_unknown_transaction_rejected() {
    let mut manager = deposited_ten();
    assert_eq!(
        manager.process_transaction("dispute", 2, 999, None),
        Err(ProcessingError::TransactionNotFound)
    );
    // The lock check lazily created account 2; nothing else changed.
    assert_eq!(manager.get_client_list().len(), 2);
    let a = account(&manager, 2);
    assert_eq!(a.get_available_amount(), 0);
    assert_eq!(a.get_held_amount(), 0);
    assert!(!a.get_is_locked());
}

#[test]
fn invalid_kind_rejected_before_account_creation() {
    let mut manager = ClientAccountManager::new();
    assert_eq!(
        manager.process_transaction("transfer", 7, 1, Some(5)),
        Err(ProcessingError::InvalidKind)
    );
    assert!(manager.get_client_list().is_empty());
}

#[test]
fn missing_amount_rejected() {
    let mut manager = ClientAccountManager::new();
    assert_eq!(
        manager.process_transaction("deposit", 1, 1, None),
        Err(ProcessingError::MissingAmount)
    );
    assert_eq!(
        manager.process_transaction("withdrawal", 1, 2, None),
        Err(ProcessingError::MissingAmount)
    );
}

#[test]
fn client_mismatch_rejected() {
    let mut manager = deposited_ten();
    assert_eq!(
        manager.process_transaction("dispute", 2, 1, None),
        Err(ProcessingError::ClientMismatch)
    );
    assert_eq!(
        manager.process_transaction("resolve", 2, 1, None),
        Err(ProcessingError::ClientMismatch)
    );
    assert_eq!(
        manager.process_transaction("chargeback", 2, 1, None),
        Err(ProcessingError::ClientMismatch)
    );
}

#[test]
fn undisputed_entry_rejects_resolve_and_chargeback() {
    let mut manager = deposited_ten();
    assert_eq!(
        manager.process_transaction("resolve", 1, 1, None),
        Err(ProcessingError::NotDisputed)
    );
    assert_eq!(
        manager.process_transaction("chargeback", 1, 1, None),
        Err(ProcessingError::NotDisputed)
    );
}

#[test]
fn withdrawal_debits_available() {
    let mut manager = deposited_ten();
    assert_eq!(manager.process_transaction("withdrawal", 1, 2, Some(4)), Ok(()));
    let a = account(&manager, 1);
    assert_eq!(a.get_available_amount(), 6);
    assert_eq!(a.get_total_amount(), 6);
}

#[test]
fn rejection_leaves_state_unchanged() {
    let mut manager = deposited_ten();
    let before = account(&manager, 1);
    assert!(manager.process_transaction("withdrawal", 1, 2, Some(15)).is_err());
    assert!(manager.process_transaction("resolve", 1, 1, None).is_err());
    assert!(manager.process_transaction("deposit", 1, 3, None).is_err());
    let after = account(&manager, 1);
    assert_eq!(after.get_available_amount(), before.get_available_amount());
    assert_eq!(after.get_held_amount(), before.get_held_amount());
    assert_eq!(after.get_is_locked(), before.get_is_locked());
    assert_eq!(manager.get_client_list().len(), 1);
    // A later dispute still sees the earlier journal entry.
    assert_eq!(manager.process_transaction("dispute", 1, 1, None), Ok(()));
}

#[test]
fn dispute_resolve_round_trip_restores_balances() {
    let mut manager = ClientAccountManager::new();
    assert_eq!(manager.process_transaction("deposit", 1, 1, Some(10)), Ok(()));
    assert_eq!(manager.process_transaction("withdrawal", 1, 2, Some(3)), Ok(()));
    let before = account(&manager, 1);
    assert_eq!(manager.process_transaction("dispute", 1, 1, None), Ok(()));
    assert_eq!(manager.process_transaction("resolve", 1, 1, None), Ok(()));
    let after = account(&manager, 1);
    assert_eq!(after.get_available_amount(), before.get_available_amount());
    assert_eq!(after.get_held_amount(), before.get_held_amount());
    assert_eq!(after.get_is_locked(), before.get_is_locked());
}

#[test]
fn total_is_available_plus_held_throughout() {
    let mut manager = ClientAccountManager::new();
    let events: [(&str, u16, u32, Option<u64>); 6] = [
        ("deposit", 1, 1, Some(100)),
        ("deposit", 2, 2, Some(50)),
        ("withdrawal", 1, 3, Some(30)),
        ("dispute", 1, 1, None),
        ("resolve", 1, 1, None),
        ("dispute", 2, 2, None),
    ];
    for (kind, client, tx, amount) in events {
        let _ = manager.process_transaction(kind, client, tx, amount);
        for a in manager.get_client_list() {
            assert_eq!(
                a.get_total_amount(),
                a.get_available_amount() as i128 + a.get_held_amount() as i128
            );
        }
    }
}

#[test]
fn duplicate_transaction_id_overwrites_entry() {
    let mut manager = ClientAccountManager::new();
    assert_eq!(manager.process_transaction("deposit", 1, 1, Some(10)), Ok(()));
    assert_eq!(manager.process_transaction("deposit", 1, 1, Some(5)), Ok(()));
    // The journal now holds the second amount; disputing tx 1 freezes 5.
    assert_eq!(manager.process_transaction("dispute", 1, 1, None), Ok(()));
    let a = account(&manager, 1);
    assert_eq!(a.get_available_amount(), 10);
    assert_eq!(a.get_held_amount(), 5);
}

#[test]
fn dispute_can_drive_available_negative() {
    let mut manager = ClientAccountManager::new();
    assert_eq!(manager.process_transaction("deposit", 1, 1, Some(10)), Ok(()));
    assert_eq!(manager.process_transaction("withdrawal", 1, 2, Some(8)), Ok(()));
    assert_eq!(manager.process_transaction("dispute", 1, 1, None), Ok(()));
    let a = account(&manager, 1);
    assert_eq!(a.get_available_amount(), -8);
    assert_eq!(a.get_held_amount(), 10);
    assert_eq!(a.get_total_amount(), 2);
}

#[test]
fn transaction_fits_accepts_ordinary_events() {
    let manager = deposited_ten();
    assert!(manager.transaction_fits("deposit", 1, 2, Some(1000)));
    assert!(manager.transaction_fits("withdrawal", 1, 2, Some(1000)));
    assert!(manager.transaction_fits("dispute", 1, 1, None));
    assert!(manager.transaction_fits("transfer", 1, 2, None));
}

#[test]
fn transaction_fits_flags_overflowing_deposit() {
    let mut manager = ClientAccountManager::new();
    assert_eq!(
        manager.process_transaction("deposit", 1, 1, Some(i64::MAX as u64)),
        Ok(())
    );
    assert!(!manager.transaction_fits("deposit", 1, 2, Some(1)));
    assert!(!manager.transaction_fits("deposit", 1, 2, Some(u64::MAX)));
    assert!(manager.transaction_fits("withdrawal", 1, 2, Some(1)));
}

#[test]
fn new_manager_has_no_accounts() {
    let manager = ClientAccountManager::new();
    assert!(manager.get_client_list().is_empty());
}
