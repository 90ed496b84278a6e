//! The mathematical model of the ledger and of the transaction-application
//! state machine.
//!
//! [`step`] says, for every event and every ledger state, what the new state
//! and the outcome are. The executable engine in
//! [`crate::client_account_manager`] is proved to follow `step` exactly, and
//! the laws at the bottom of this module are proved of `step` itself.

use vstd::prelude::*;

use crate::error::ProcessingError;
use crate::transaction::TransactionType;

verus! {

/// The balance state of one account. Amounts are mathematical integers in
/// minor units; the total is never stored, it is `available + held`.
#[verifier::ext_equal]
pub ghost struct AccountModel {
    /// Funds immediately usable for withdrawal.
    pub available: int,
    /// Funds frozen due to an active dispute.
    pub held: int,
    /// Once true, the account rejects every subsequent event.
    pub locked: bool,
}

/// The journal entry kept for an accepted deposit or withdrawal.
#[verifier::ext_equal]
pub ghost struct EntryModel {
    /// The owning client.
    pub client: u16,
    /// The originating amount. Entries are only ever created with an amount;
    /// the engine nevertheless checks for its absence defensively.
    pub amount: Option<int>,
    /// Whether the entry is currently under dispute.
    pub disputed: bool,
}

/// The whole ledger: every account ever referenced and every journal entry
/// ever accepted. Accounts are created lazily and never removed; entries are
/// never deleted.
#[verifier::ext_equal]
pub ghost struct LedgerModel {
    pub accounts: Map<u16, AccountModel>,
    pub journal: Map<u32, EntryModel>,
}

/// What one application of the state machine yields: the new ledger state and
/// the outcome handed back to the caller.
#[verifier::ext_equal]
pub ghost struct StepOutcome {
    pub state: LedgerModel,
    pub result: Result<(), ProcessingError>,
}

impl LedgerModel {
    /// The ledger before any event: no accounts, no journal entries.
    pub open spec fn initial() -> LedgerModel {
        LedgerModel { accounts: Map::empty(), journal: Map::empty() }
    }
}

/// The model of an executable amount: minor units read as an unbounded
/// integer.
pub open spec fn amount_model(amount: Option<u64>) -> Option<int> {
    match amount {
        None => None,
        Some(a) => Some(a as int),
    }
}

/// The journal-entry view of a stored transaction record: what dispute,
/// resolve and chargeback read of it.
pub open spec fn entry_of(t: crate::transaction::Transaction) -> EntryModel {
    EntryModel { client: t.client_id, amount: amount_model(t.amount), disputed: t.is_disputed }
}

/// A freshly created account: zero balances, unlocked.
pub open spec fn initial_account() -> AccountModel {
    AccountModel { available: 0, held: 0, locked: false }
}

/// The client's account, or the account a lazy creation would make.
pub open spec fn account_or_new(m: LedgerModel, client: u16) -> AccountModel {
    if m.accounts.contains_key(client) {
        m.accounts[client]
    } else {
        initial_account()
    }
}

/// The ledger after the lazy account creation for `client`: the existing
/// account is kept, a missing one appears with zero balances, unlocked.
pub open spec fn ensure_account(m: LedgerModel, client: u16) -> LedgerModel {
    LedgerModel { accounts: m.accounts.insert(client, account_or_new(m, client)), journal: m.journal }
}

/// Deposit: requires an amount, increases `available` by it, and stores or
/// overwrites the journal entry for `tx`. Assumes the account exists.
pub open spec fn step_deposit(m: LedgerModel, client: u16, tx: u32, amount: Option<int>) -> StepOutcome {
    match amount {
        None => StepOutcome { state: m, result: Err(ProcessingError::MissingAmount) },
        Some(a) => {
            let account = m.accounts[client];
            let credited = AccountModel { available: account.available + a, ..account };
            StepOutcome {
                state: LedgerModel {
                    accounts: m.accounts.insert(client, credited),
                    journal: m.journal.insert(tx, EntryModel { client, amount: Some(a), disputed: false }),
                },
                result: Ok(()),
            }
        },
    }
}

/// Withdrawal: requires an amount and `available >= amount`, decreases
/// `available` by it, and stores or overwrites the journal entry for `tx`.
pub open spec fn step_withdrawal(m: LedgerModel, client: u16, tx: u32, amount: Option<int>) -> StepOutcome {
    match amount {
        None => StepOutcome { state: m, result: Err(ProcessingError::MissingAmount) },
        Some(a) => {
            let account = m.accounts[client];
            if account.available >= a {
                let debited = AccountModel { available: account.available - a, ..account };
                StepOutcome {
                    state: LedgerModel {
                        accounts: m.accounts.insert(client, debited),
                        journal: m.journal.insert(tx, EntryModel { client, amount: Some(a), disputed: false }),
                    },
                    result: Ok(()),
                }
            } else {
                StepOutcome { state: m, result: Err(ProcessingError::InsufficientFunds) }
            }
        },
    }
}

/// Dispute: looks the entry up, checks ownership and (defensively) the
/// presence of its amount, then moves the amount from `available` to `held`
/// and marks the entry disputed. The total is unchanged.
pub open spec fn step_dispute(m: LedgerModel, client: u16, tx: u32) -> StepOutcome {
    if !m.journal.contains_key(tx) {
        StepOutcome { state: m, result: Err(ProcessingError::TransactionNotFound) }
    } else {
        let e = m.journal[tx];
        if e.client != client {
            StepOutcome { state: m, result: Err(ProcessingError::ClientMismatch) }
        } else {
            match e.amount {
                None => StepOutcome { state: m, result: Err(ProcessingError::MissingAmount) },
                Some(a) => {
                    let account = m.accounts[client];
                    let frozen = AccountModel { available: account.available - a, held: account.held + a, ..account };
                    StepOutcome {
                        state: LedgerModel {
                            accounts: m.accounts.insert(client, frozen),
                            journal: m.journal.insert(tx, EntryModel { disputed: true, ..e }),
                        },
                        result: Ok(()),
                    }
                },
            }
        }
    }
}

/// Resolve: the same existence, ownership and amount checks as dispute, plus
/// the entry must be under dispute. Reverses dispute exactly: moves the
/// amount from `held` back to `available` and clears the dispute mark.
pub open spec fn step_resolve(m: LedgerModel, client: u16, tx: u32) -> StepOutcome {
    if !m.journal.contains_key(tx) {
        StepOutcome { state: m, result: Err(ProcessingError::TransactionNotFound) }
    } else {
        let e = m.journal[tx];
        if e.client != client {
            StepOutcome { state: m, result: Err(ProcessingError::ClientMismatch) }
        } else {
            match e.amount {
                None => StepOutcome { state: m, result: Err(ProcessingError::MissingAmount) },
                Some(a) => {
                    if !e.disputed {
                        StepOutcome { state: m, result: Err(ProcessingError::NotDisputed) }
                    } else {
                        let account = m.accounts[client];
                        let released = AccountModel { available: account.available + a, held: account.held - a, ..account };
                        StepOutcome {
                            state: LedgerModel {
                                accounts: m.accounts.insert(client, released),
                                journal: m.journal.insert(tx, EntryModel { disputed: false, ..e }),
                            },
                            result: Ok(()),
                        }
                    }
                },
            }
        }
    }
}

/// Chargeback: the same existence and ownership checks, and the entry must be
/// under dispute. Decreases `held` by the amount without crediting
/// `available` (the money leaves the ledger, reducing the total), clears the
/// dispute mark, and locks the account permanently.
pub open spec fn step_chargeback(m: LedgerModel, client: u16, tx: u32) -> StepOutcome {
    if !m.journal.contains_key(tx) {
        StepOutcome { state: m, result: Err(ProcessingError::TransactionNotFound) }
    } else {
        let e = m.journal[tx];
        if e.client != client {
            StepOutcome { state: m, result: Err(ProcessingError::ClientMismatch) }
        } else if !e.disputed {
            StepOutcome { state: m, result: Err(ProcessingError::NotDisputed) }
        } else {
            let account = m.accounts[client];
            let held = match e.amount {
                Some(a) => account.held - a,
                None => account.held,
            };
            let seized = AccountModel { held, locked: true, ..account };
            StepOutcome {
                state: LedgerModel {
                    accounts: m.accounts.insert(client, seized),
                    journal: m.journal.insert(tx, EntryModel { disputed: false, ..e }),
                },
                result: Ok(()),
            }
        }
    }
}

/// One application of the state machine.
///
/// An unknown kind is rejected before any account lookup, so a malformed
/// event never creates an account as a side effect. For a known kind the
/// account is created lazily, then a locked account rejects the event
/// whatever its kind, and otherwise the per-kind transition applies. Every
/// failure leaves the ledger as the lazy creation left it: no partial
/// mutation.
pub open spec fn step(m: LedgerModel, kind: Option<TransactionType>, client: u16, tx: u32, amount: Option<int>) -> StepOutcome {
    match kind {
        None => StepOutcome { state: m, result: Err(ProcessingError::InvalidKind) },
        Some(k) => {
            let m1 = ensure_account(m, client);
            if m1.accounts[client].locked {
                StepOutcome { state: m1, result: Err(ProcessingError::AccountLocked) }
            } else {
                match k {
                    TransactionType::Deposit => step_deposit(m1, client, tx, amount),
                    TransactionType::Withdrawal => step_withdrawal(m1, client, tx, amount),
                    TransactionType::Dispute => step_dispute(m1, client, tx),
                    TransactionType::Resolve => step_resolve(m1, client, tx),
                    TransactionType::Chargeback => step_chargeback(m1, client, tx),
                }
            }
        },
    }
}

/// Whether a deposit's arithmetic stays within the machine representation of
/// balances (`i64` minor units).
pub open spec fn deposit_fits(account: AccountModel, amount: Option<int>) -> bool {
    match amount {
        None => true,
        Some(a) => a <= i64::MAX as int && account.available + a <= i64::MAX as int,
    }
}

/// Whether a dispute's arithmetic stays within the machine representation.
pub open spec fn dispute_fits(m: LedgerModel, account: AccountModel, client: u16, tx: u32) -> bool {
    if m.journal.contains_key(tx) {
        let e = m.journal[tx];
        if e.client == client {
            match e.amount {
                None => true,
                Some(a) => account.available - a >= i64::MIN as int && account.held + a <= i64::MAX as int,
            }
        } else {
            true
        }
    } else {
        true
    }
}

/// Whether a resolve's arithmetic stays within the machine representation.
pub open spec fn resolve_fits(m: LedgerModel, account: AccountModel, client: u16, tx: u32) -> bool {
    if m.journal.contains_key(tx) {
        let e = m.journal[tx];
        if e.client == client && e.disputed {
            match e.amount {
                None => true,
                Some(a) => account.available + a <= i64::MAX as int && account.held - a >= i64::MIN as int,
            }
        } else {
            true
        }
    } else {
        true
    }
}

/// Whether a chargeback's arithmetic stays within the machine representation.
pub open spec fn chargeback_fits(m: LedgerModel, account: AccountModel, client: u16, tx: u32) -> bool {
    if m.journal.contains_key(tx) {
        let e = m.journal[tx];
        if e.client == client && e.disputed {
            match e.amount {
                None => true,
                Some(a) => account.held - a >= i64::MIN as int,
            }
        } else {
            true
        }
    } else {
        true
    }
}

/// Whether applying `step` to this event keeps every balance within `i64`.
///
/// This is purely a machine limit: the model itself is over unbounded
/// integers. The executable engine requires it, and offers an executable
/// check for it, so that a caller never hands it an event whose application
/// would not be representable.
pub open spec fn fits(m: LedgerModel, kind: Option<TransactionType>, client: u16, tx: u32, amount: Option<int>) -> bool {
    match kind {
        None => true,
        Some(k) => {
            let account = account_or_new(m, client);
            if account.locked {
                true
            } else {
                match k {
                    TransactionType::Deposit => deposit_fits(account, amount),
                    TransactionType::Withdrawal => true,
                    TransactionType::Dispute => dispute_fits(m, account, client, tx),
                    TransactionType::Resolve => resolve_fits(m, account, client, tx),
                    TransactionType::Chargeback => chargeback_fits(m, account, client, tx),
                }
            }
        },
    }
}

/// `map_values` distributes over `insert`: the executable store's maps and
/// the model's maps stay in step under updates.
pub broadcast proof fn lemma_map_values_insert<K, V, W>(m: Map<K, V>, k: K, v: V, f: spec_fn(V) -> W)
    ensures
        #[trigger] m.insert(k, v).map_values(f) == m.map_values(f).insert(k, f(v)),
{
    assert(m.insert(k, v).map_values(f) =~= m.map_values(f).insert(k, f(v)));
}

/// Law: an account with `locked == true` rejects every event of a known kind
/// with `AccountLocked`, and the whole ledger — its balances, its lock, every
/// journal entry — is left exactly as it was.
pub proof fn lemma_locked_account_rejects(m: LedgerModel, kind: TransactionType, client: u16, tx: u32, amount: Option<int>)
    requires
        m.accounts.contains_key(client),
        m.accounts[client].locked,
    ensures
        step(m, Some(kind), client, tx, amount).state == m,
        step(m, Some(kind), client, tx, amount).result == Err::<(), ProcessingError>(ProcessingError::AccountLocked),
{
    assert(m.accounts.insert(client, m.accounts[client]) =~= m.accounts);
    assert(ensure_account(m, client) =~= m);
}

/// Law: an event touches at most the event's client's account and the
/// journal entry of the transaction identifier it names; every other account
/// and every other entry is left exactly as it was. All state a client's
/// event history touches is confined to that client's account and the
/// entries it owns, so partitioning the ledger by client is safe.
pub proof fn lemma_step_is_local(m: LedgerModel, kind: Option<TransactionType>, client: u16, tx: u32, amount: Option<int>)
    ensures
        ({
            let after = step(m, kind, client, tx, amount).state;
            &&& forall|c: u16|
                c != client ==> (#[trigger] after.accounts.contains_key(c)) == m.accounts.contains_key(c)
            &&& forall|c: u16|
                c != client && m.accounts.contains_key(c) ==> #[trigger] after.accounts[c] == m.accounts[c]
            &&& forall|t: u32|
                t != tx ==> (#[trigger] after.journal.contains_key(t)) == m.journal.contains_key(t)
            &&& forall|t: u32|
                t != tx && m.journal.contains_key(t) ==> #[trigger] after.journal[t] == m.journal[t]
        }),
{
}

/// Law: the lock a chargeback imposes is permanent, and a locked account is
/// frozen entirely: whatever event comes next, for whichever client, the
/// locked account's `available`, `held` and `locked` are left exactly as
/// they were. Its own events are rejected at the lock check, and no other
/// client's event can name it: a dispute lifecycle event owned by it but
/// filed by another client fails the ownership check.
pub proof fn lemma_lock_is_permanent(m: LedgerModel, kind: Option<TransactionType>, client: u16, tx: u32, amount: Option<int>, locked_client: u16)
    requires
        m.accounts.contains_key(locked_client),
        m.accounts[locked_client].locked,
    ensures
        step(m, kind, client, tx, amount).state.accounts.contains_key(locked_client),
        step(m, kind, client, tx, amount).state.accounts[locked_client] == m.accounts[locked_client],
{
    if kind is Some && client == locked_client {
        lemma_locked_account_rejects(m, kind.unwrap(), client, tx, amount);
    } else {
        lemma_step_is_local(m, kind, client, tx, amount);
    }
}

/// Law: a rejected event, whatever its error, leaves the ledger exactly as it
/// was, provided the client's account already exists.
///
/// The one effect a rejected event can ever have is the lazy creation of the
/// client's empty account: a failed dispute for a brand-new client leaves
/// that client's zero-balance, unlocked account behind. The account's
/// balances, every other account, and the journal are untouched either way.
pub proof fn lemma_rejection_preserves_state(m: LedgerModel, kind: Option<TransactionType>, client: u16, tx: u32, amount: Option<int>)
    requires
        kind is Some ==> m.accounts.contains_key(client),
        step(m, kind, client, tx, amount).result is Err,
    ensures
        step(m, kind, client, tx, amount).state == m,
{
    if kind is Some {
        assert(m.accounts.insert(client, m.accounts[client]) =~= m.accounts);
        assert(ensure_account(m, client) =~= m);
    }
}

/// Law: a successful dispute or resolve conserves the account's total;
/// it only moves funds between `available` and `held`.
pub proof fn lemma_dispute_resolve_preserve_total(m: LedgerModel, kind: TransactionType, client: u16, tx: u32, amount: Option<int>)
    requires
        kind == TransactionType::Dispute || kind == TransactionType::Resolve,
        step(m, Some(kind), client, tx, amount).result is Ok,
    ensures
        ({
            let account = step(m, Some(kind), client, tx, amount).state.accounts[client];
            account.available + account.held == account_or_new(m, client).available + account_or_new(m, client).held
        }),
{
}

/// Law: dispute followed immediately by resolve on the same transaction is a
/// round trip. The resolve is owed success, `available` and `held` are
/// restored to their pre-dispute values exactly, and — unless the entry was
/// already under dispute beforehand — the whole ledger returns to its
/// pre-dispute state, up to the lazy creation of the client's account.
///
/// The resolve's amount argument is irrelevant: resolve operates purely by
/// transaction identifier lookup.
pub proof fn lemma_dispute_resolve_round_trip(m: LedgerModel, client: u16, tx: u32, x: Option<int>, y: Option<int>)
    requires
        step(m, Some(TransactionType::Dispute), client, tx, x).result is Ok,
    ensures
        ({
            let disputed = step(m, Some(TransactionType::Dispute), client, tx, x).state;
            let resolved = step(disputed, Some(TransactionType::Resolve), client, tx, y);
            &&& resolved.result is Ok
            &&& resolved.state.accounts.contains_key(client)
            &&& resolved.state.accounts[client] == account_or_new(m, client)
            &&& !m.journal[tx].disputed ==> resolved.state == ensure_account(m, client)
        }),
{
    let m1 = ensure_account(m, client);
    let disputed = step(m, Some(TransactionType::Dispute), client, tx, x).state;
    let resolved = step(disputed, Some(TransactionType::Resolve), client, tx, y);
    let e = m.journal[tx];
    assert(disputed.accounts.insert(client, disputed.accounts[client]) =~= disputed.accounts);
    assert(ensure_account(disputed, client) =~= disputed);
    assert(resolved.state.accounts[client] =~= account_or_new(m, client));
    if !e.disputed {
        assert(resolved.state.accounts =~= m1.accounts);
        assert(resolved.state.journal =~= m.journal);
        assert(resolved.state =~= ensure_account(m, client));
    }
}

} // verus!
