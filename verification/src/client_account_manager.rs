//! The ledger store and the processing engine.
//!
//! [`ClientAccountManager`] owns the mapping from client identifier to
//! account and from transaction identifier to journal entry, creates accounts
//! lazily, and applies one event at a time. Its view is a
//! [`LedgerModel`], and [`process_transaction`] is proved to apply exactly
//! the [`step`] transition of the model.
//!
//! [`process_transaction`]: ClientAccountManager::process_transaction

use std::collections::HashMap;
use vstd::prelude::*;
use vstd::std_specs::iter::IteratorSpec;

use crate::client_account::ClientAccount;
use crate::error::ProcessingError;
use crate::model::{
    account_or_new, amount_model, chargeback_fits, deposit_fits, dispute_fits, ensure_account,
    entry_of, fits, resolve_fits, step, step_chargeback, step_deposit, step_dispute, step_resolve,
    step_withdrawal, LedgerModel,
};
use crate::transaction::{kind_of, Transaction, TransactionType};

verus! {

broadcast use
    vstd::std_specs::hash::group_hash_axioms,
    crate::model::lemma_map_values_insert,
    crate::client_account::lemma_account_in_range;

/// The ledger store: every account ever referenced, keyed by client
/// identifier, and every accepted deposit or withdrawal, keyed by transaction
/// identifier. Single-writer access is assumed; each event's transition is
/// atomic from the caller's perspective.
pub struct ClientAccountManager {
    clients: HashMap<u16, ClientAccount>,
    transactions: HashMap<u32, Transaction>,
}

impl View for ClientAccountManager {
    type V = LedgerModel;

    closed spec fn view(&self) -> LedgerModel {
        LedgerModel {
            accounts: self.clients@.map_values(|a: ClientAccount| a@),
            journal: self.transactions@.map_values(|t: Transaction| entry_of(t)),
        }
    }
}

impl ClientAccountManager {
    /// The store's internal invariant: each account records the client
    /// identifier it is keyed by, and each journal entry records the
    /// transaction identifier it is keyed by and carries an amount that fits
    /// the machine representation of balances.
    pub closed spec fn wf(&self) -> bool {
        &&& forall|c: u16|
            self.clients@.contains_key(c) ==> (#[trigger] self.clients@[c]).spec_id() == c
        &&& forall|t: u32|
            self.transactions@.contains_key(t) ==> {
                let e = #[trigger] self.transactions@[t];
                &&& e.id == t
                &&& e.amount is Some
                &&& e.amount.unwrap() <= i64::MAX as u64
            }
    }

    /// An empty ledger: no accounts, no journal entries.
    pub fn new() -> (manager: ClientAccountManager)
        ensures
            manager.wf(),
            manager@ == LedgerModel::initial(),
    {
        let manager = ClientAccountManager { clients: HashMap::new(), transactions: HashMap::new() };
        proof {
            assert(manager@.accounts =~= LedgerModel::initial().accounts);
            assert(manager@.journal =~= LedgerModel::initial().journal);
        }
        manager
    }

    /// Look the client's account up, creating it lazily: the first reference
    /// by any event brings the account into existence with zero balances,
    /// unlocked. Accounts are never removed.
    fn get_or_create_client_account(&mut self, client_id: u16) -> (account: ClientAccount)
        requires
            old(self).wf(),
        ensures
            final(self).wf(),
            final(self)@ == ensure_account(old(self)@, client_id),
            final(self)@.accounts.contains_key(client_id),
            account@ == account_or_new(old(self)@, client_id),
            account.spec_id() == client_id,
    {
        if !self.clients.contains_key(&client_id) {
            self.clients.insert(client_id, ClientAccount::new(client_id));
        }
        let account = *self.clients.get(&client_id).unwrap();
        proof {
            assert(self@.accounts =~= ensure_account(old(self)@, client_id).accounts);
            assert(self@ =~= ensure_account(old(self)@, client_id));
        }
        account
    }

    /// Deposit: requires an amount, else `MissingAmount`; increases the
    /// client's available funds by it and stores or overwrites the journal
    /// entry for the transaction identifier.
    fn deposit(&mut self, transaction: &Transaction) -> (result: Result<(), ProcessingError>)
        requires
            old(self).wf(),
            old(self)@.accounts.contains_key(transaction.client_id),
            !transaction.is_disputed,
            deposit_fits(old(self)@.accounts[transaction.client_id], amount_model(transaction.amount)),
        ensures
            final(self).wf(),
            final(self)@ == step_deposit(old(self)@, transaction.client_id, transaction.id, amount_model(transaction.amount)).state,
            result == step_deposit(old(self)@, transaction.client_id, transaction.id, amount_model(transaction.amount)).result,
    {
        proof {
            assert(self.clients@.contains_key(transaction.client_id));
        }
        let mut client = *self.clients.get(&transaction.client_id).unwrap();
        if let Some(amount) = transaction.amount {
            client.adjust_available_amount(amount as i64);
            self.clients.insert(transaction.client_id, client);
            self.transactions.insert(transaction.id, *transaction);
            proof {
                assert(self@ =~= step_deposit(old(self)@, transaction.client_id, transaction.id, amount_model(transaction.amount)).state);
            }
            Ok(())
        } else {
            Err(ProcessingError::MissingAmount)
        }
    }

    /// Withdrawal: requires an amount, else `MissingAmount`, and
    /// `available >= amount`, else `InsufficientFunds` with no state change;
    /// decreases the available funds and stores or overwrites the journal
    /// entry.
    fn withdrawal(&mut self, transaction: &Transaction) -> (result: Result<(), ProcessingError>)
        requires
            old(self).wf(),
            old(self)@.accounts.contains_key(transaction.client_id),
            !transaction.is_disputed,
        ensures
            final(self).wf(),
            final(self)@ == step_withdrawal(old(self)@, transaction.client_id, transaction.id, amount_model(transaction.amount)).state,
            result == step_withdrawal(old(self)@, transaction.client_id, transaction.id, amount_model(transaction.amount)).result,
    {
        proof {
            assert(self.clients@.contains_key(transaction.client_id));
        }
        let mut client = *self.clients.get(&transaction.client_id).unwrap();
        if let Some(amount) = transaction.amount {
            let covered = amount <= i64::MAX as u64 && client.get_available_amount() >= amount as i64;
            proof {
                assert(covered == (old(self)@.accounts[transaction.client_id].available >= amount as int));
            }
            if covered {
                client.adjust_available_amount(-(amount as i64));
                self.clients.insert(transaction.client_id, client);
                self.transactions.insert(transaction.id, *transaction);
                proof {
                    assert(self@ =~= step_withdrawal(old(self)@, transaction.client_id, transaction.id, amount_model(transaction.amount)).state);
                }
                Ok(())
            } else {
                Err(ProcessingError::InsufficientFunds)
            }
        } else {
            Err(ProcessingError::MissingAmount)
        }
    }

    /// Dispute: requires an existing journal entry owned by the event's
    /// client and carrying an amount; moves that amount from available to
    /// held (the total is unchanged) and marks the entry disputed.
    fn dispute(&mut self, transaction: &Transaction) -> (result: Result<(), ProcessingError>)
        requires
            old(self).wf(),
            old(self)@.accounts.contains_key(transaction.client_id),
            dispute_fits(old(self)@, old(self)@.accounts[transaction.client_id], transaction.client_id, transaction.id),
        ensures
            final(self).wf(),
            final(self)@ == step_dispute(old(self)@, transaction.client_id, transaction.id).state,
            result == step_dispute(old(self)@, transaction.client_id, transaction.id).result,
    {
        if !self.transactions.contains_key(&transaction.id) {
            return Err(ProcessingError::TransactionNotFound);
        }
        let disputed_transaction = *self.transactions.get(&transaction.id).unwrap();
        if disputed_transaction.client_id != transaction.client_id {
            return Err(ProcessingError::ClientMismatch);
        }
        if let Some(amount) = disputed_transaction.amount {
            proof {
                assert(self.clients@.contains_key(transaction.client_id));
            }
            let mut client = *self.clients.get(&transaction.client_id).unwrap();
            client.adjust_available_amount(-(amount as i64));
            client.adjust_held_amount(amount as i64);
            self.clients.insert(transaction.client_id, client);
            let mut entry = disputed_transaction;
            entry.is_disputed = true;
            self.transactions.insert(transaction.id, entry);
            proof {
                assert(self@ =~= step_dispute(old(self)@, transaction.client_id, transaction.id).state);
            }
            Ok(())
        } else {
            Err(ProcessingError::MissingAmount)
        }
    }

    /// Resolve: the same existence, ownership and amount checks as dispute,
    /// and the entry must be under dispute, else `NotDisputed`. Reverses
    /// dispute exactly: moves the amount from held back to available and
    /// clears the dispute mark.
    fn resolve(&mut self, transaction: &Transaction) -> (result: Result<(), ProcessingError>)
        requires
            old(self).wf(),
            old(self)@.accounts.contains_key(transaction.client_id),
            resolve_fits(old(self)@, old(self)@.accounts[transaction.client_id], transaction.client_id, transaction.id),
        ensures
            final(self).wf(),
            final(self)@ == step_resolve(old(self)@, transaction.client_id, transaction.id).state,
            result == step_resolve(old(self)@, transaction.client_id, transaction.id).result,
    {
        if !self.transactions.contains_key(&transaction.id) {
            return Err(ProcessingError::TransactionNotFound);
        }
        let disputed_transaction = *self.transactions.get(&transaction.id).unwrap();
        if disputed_transaction.client_id != transaction.client_id {
            return Err(ProcessingError::ClientMismatch);
        }
        if let Some(amount) = disputed_transaction.amount {
            if !disputed_transaction.is_disputed {
                return Err(ProcessingError::NotDisputed);
            }
            proof {
                assert(self.clients@.contains_key(transaction.client_id));
            }
            let mut client = *self.clients.get(&transaction.client_id).unwrap();
            client.adjust_available_amount(amount as i64);
            client.adjust_held_amount(-(amount as i64));
            self.clients.insert(transaction.client_id, client);
            let mut entry = disputed_transaction;
            entry.is_disputed = false;
            self.transactions.insert(transaction.id, entry);
            proof {
                assert(self@ =~= step_resolve(old(self)@, transaction.client_id, transaction.id).state);
            }
            Ok(())
        } else {
            Err(ProcessingError::MissingAmount)
        }
    }

    /// Chargeback: the same existence and ownership checks, and the entry
    /// must be under dispute. Decreases the held funds by the entry's amount
    /// without crediting available — the money leaves the ledger — clears
    /// the dispute mark, and locks the account permanently.
    fn chargeback(&mut self, transaction: &Transaction) -> (result: Result<(), ProcessingError>)
        requires
            old(self).wf(),
            old(self)@.accounts.contains_key(transaction.client_id),
            chargeback_fits(old(self)@, old(self)@.accounts[transaction.client_id], transaction.client_id, transaction.id),
        ensures
            final(self).wf(),
            final(self)@ == step_chargeback(old(self)@, transaction.client_id, transaction.id).state,
            result == step_chargeback(old(self)@, transaction.client_id, transaction.id).result,
    {
        if !self.transactions.contains_key(&transaction.id) {
            return Err(ProcessingError::TransactionNotFound);
        }
        let disputed_transaction = *self.transactions.get(&transaction.id).unwrap();
        if disputed_transaction.client_id != transaction.client_id {
            return Err(ProcessingError::ClientMismatch);
        }
        if !disputed_transaction.is_disputed {
            return Err(ProcessingError::NotDisputed);
        }
        proof {
            assert(self.clients@.contains_key(transaction.client_id));
        }
        let mut client = *self.clients.get(&transaction.client_id).unwrap();
        if let Some(amount) = disputed_transaction.amount {
            client.adjust_held_amount(-(amount as i64));
        }
        client.set_is_locked(true);
        self.clients.insert(transaction.client_id, client);
        let mut entry = disputed_transaction;
        entry.is_disputed = false;
        self.transactions.insert(transaction.id, entry);
        proof {
            assert(self@ =~= step_chargeback(old(self)@, transaction.client_id, transaction.id).state);
        }
        Ok(())
    }

    /// Apply one event to the ledger.
    ///
    /// An unknown kind string is rejected with `InvalidKind` before any
    /// account lookup. For a known kind the client's account is looked up or
    /// lazily created; a locked account rejects the event with
    /// `AccountLocked` whatever its kind. Otherwise the per-kind transition
    /// applies. The new ledger state and the outcome are exactly those of
    /// the model's [`step`]; every failure path returns before any mutation
    /// beyond the lazy account creation.
    ///
    /// The `fits` precondition is purely a machine limit (every balance the
    /// event produces must fit `i64` minor units);
    /// [`Self::transaction_fits`] checks it executably.
    pub fn process_transaction(
        &mut self,
        transaction_type: &str,
        client_id: u16,
        transaction_id: u32,
        amount: Option<u64>,
    ) -> (result: Result<(), ProcessingError>)
        requires
            old(self).wf(),
            fits(old(self)@, kind_of(transaction_type@), client_id, transaction_id, amount_model(amount)),
        ensures
            final(self).wf(),
            final(self)@ == step(old(self)@, kind_of(transaction_type@), client_id, transaction_id, amount_model(amount)).state,
            result == step(old(self)@, kind_of(transaction_type@), client_id, transaction_id, amount_model(amount)).result,
    {
        let kind = TransactionType::get_from_str(transaction_type);
        if kind.is_none() {
            return Err(ProcessingError::InvalidKind);
        }
        let transaction = Transaction {
            transaction_type: kind.unwrap(),
            id: transaction_id,
            client_id,
            amount,
            is_disputed: false,
        };

        let client = self.get_or_create_client_account(client_id);
        if client.get_is_locked() {
            return Err(ProcessingError::AccountLocked);
        }

        match transaction.transaction_type {
            TransactionType::Deposit => self.deposit(&transaction),
            TransactionType::Withdrawal => self.withdrawal(&transaction),
            TransactionType::Dispute => self.dispute(&transaction),
            TransactionType::Resolve => self.resolve(&transaction),
            TransactionType::Chargeback => self.chargeback(&transaction),
        }
    }

    /// Whether applying this event now keeps every balance within the `i64`
    /// minor-unit representation: the executable check for
    /// [`Self::process_transaction`]'s machine-limit precondition. A caller
    /// that tests it first may call `process_transaction` on any event.
    pub fn transaction_fits(
        &self,
        transaction_type: &str,
        client_id: u16,
        transaction_id: u32,
        amount: Option<u64>,
    ) -> (result: bool)
        requires
            self.wf(),
        ensures
            result == fits(self@, kind_of(transaction_type@), client_id, transaction_id, amount_model(amount)),
    {
        let kind = match TransactionType::get_from_str(transaction_type) {
            None => {
                return true;
            },
            Some(k) => k,
        };
        let account = match self.clients.get(&client_id) {
            Some(a) => *a,
            None => ClientAccount::new(client_id),
        };
        if account.get_is_locked() {
            return true;
        }
        match kind {
            TransactionType::Deposit => match amount {
                None => true,
                Some(a) => a <= i64::MAX as u64 && account.get_available_amount() as i128
                    + a as i128 <= i64::MAX as i128,
            },
            TransactionType::Withdrawal => true,
            TransactionType::Dispute => match self.transactions.get(&transaction_id) {
                None => true,
                Some(entry) => {
                    if entry.client_id != client_id {
                        true
                    } else {
                        match entry.amount {
                            None => true,
                            Some(a) => account.get_available_amount() as i128 - a as i128
                                >= i64::MIN as i128 && account.get_held_amount() as i128
                                + a as i128 <= i64::MAX as i128,
                        }
                    }
                },
            },
            TransactionType::Resolve => match self.transactions.get(&transaction_id) {
                None => true,
                Some(entry) => {
                    if entry.client_id != client_id || !entry.is_disputed {
                        true
                    } else {
                        match entry.amount {
                            None => true,
                            Some(a) => account.get_available_amount() as i128 + a as i128
                                <= i64::MAX as i128 && account.get_held_amount() as i128
                                - a as i128 >= i64::MIN as i128,
                        }
                    }
                },
            },
            TransactionType::Chargeback => match self.transactions.get(&transaction_id) {
                None => true,
                Some(entry) => {
                    if entry.client_id != client_id || !entry.is_disputed {
                        true
                    } else {
                        match entry.amount {
                            None => true,
                            Some(a) => account.get_held_amount() as i128 - a as i128
                                >= i64::MIN as i128,
                        }
                    }
                },
            },
        }
    }

    /// An unordered snapshot of every account ever referenced: each listed
    /// account is exactly the stored account for its client identifier, and
    /// every client of the ledger appears. No order is guaranteed.
    pub fn get_client_list(&self) -> (clients: Vec<ClientAccount>)
        requires
            self.wf(),
        ensures
            clients@.len() == self@.accounts.dom().len(),
            forall|i: int|
                0 <= i < clients@.len() ==> {
                    let account = #[trigger] clients@[i];
                    &&& self@.accounts.contains_key(account.spec_id())
                    &&& self@.accounts[account.spec_id()] == account@
                },
            forall|c: u16|
                #[trigger] self@.accounts.contains_key(c) ==> exists|i: int|
                    0 <= i < clients@.len() && clients@[i].spec_id() == c,
    {
        let mut clients: Vec<ClientAccount> = Vec::new();
        for pair in it: self.clients.iter()
            invariant
                clients@.len() == it.index(),
                forall|i: int| 0 <= i < it.index() ==> clients@[i] == *#[trigger] it.seq()[i].1,
                it.seq() == vstd::std_specs::hash::spec_hash_map_iter(&self.clients).remaining(),
        {
            clients.push(*pair.1);
        }
        proof {
            let v = vstd::std_specs::hash::spec_hash_map_iter(&self.clients).remaining();
            assert(self@.accounts.dom() =~= self.clients@.dom());
            assert(clients@.len() == v.len());
            assert(v.len() == self.clients@.dom().len());
            assert forall|i: int| 0 <= i < clients@.len() implies {
                let account = #[trigger] clients@[i];
                &&& self@.accounts.contains_key(account.spec_id())
                &&& self@.accounts[account.spec_id()] == account@
            } by {
                assert(self.clients@.contains_key(*v[i].0) && self.clients@[*v[i].0] == *v[i].1);
            }
            assert forall|c: u16| #[trigger] self@.accounts.contains_key(c) implies exists|i: int|
                0 <= i < clients@.len() && clients@[i].spec_id() == c by {
                assert(self.clients@.contains_key(c));
                assert(v.contains((&c, &self.clients@[c])));
                let j = choose|j: int| 0 <= j < v.len() && v[j] == (&c, &self.clients@[c]);
                assert(clients@[j] == *v[j].1);
                assert(*v[j].1 == self.clients@[c]);
                assert(self.clients@[c].spec_id() == c);
                assert(clients@[j].spec_id() == c);
            }
        }
        clients
    }
}

} // verus!
