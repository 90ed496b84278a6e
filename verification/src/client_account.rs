use vstd::prelude::*;

use crate::model::AccountModel;

verus! {

/// Per-client balance state: the spendable funds, the funds frozen pending
/// dispute resolution, and the lock a chargeback imposes.
///
/// Amounts are `i64` minor units. The view of an account is its
/// [`AccountModel`], over unbounded integers.
#[derive(Clone, Copy, Debug)]
pub struct ClientAccount {
    id: u16,
    available_amount: i64,
    held_amount: i64,
    is_locked: bool,
}

impl View for ClientAccount {
    type V = AccountModel;

    closed spec fn view(&self) -> AccountModel {
        AccountModel {
            available: self.available_amount as int,
            held: self.held_amount as int,
            locked: self.is_locked,
        }
    }
}

/// The balances an account holds are `i64` minor units, so its view is
/// always within the machine range.
pub broadcast proof fn lemma_account_in_range(account: ClientAccount)
    ensures
        i64::MIN as int <= #[trigger] account@.available <= i64::MAX as int,
        i64::MIN as int <= #[trigger] account@.held <= i64::MAX as int,
{
}

impl ClientAccount {
    /// The client identifier this account belongs to.
    pub closed spec fn spec_id(&self) -> u16 {
        self.id
    }

    /// A fresh account: zero balances, unlocked.
    pub fn new(id: u16) -> (account: ClientAccount)
        ensures
            account.spec_id() == id,
            account@ == crate::model::initial_account(),
    {
        ClientAccount { id, available_amount: 0, held_amount: 0, is_locked: false }
    }

    pub fn get_id(&self) -> (id: u16)
        ensures
            id == self.spec_id(),
    {
        self.id
    }

    /// The derived total: `available + held`. It is never stored, so it is
    /// exact by construction; the sum is computed in `i128` and cannot
    /// overflow.
    pub fn get_total_amount(&self) -> (total: i128)
        ensures
            total as int == self@.available + self@.held,
    {
        self.available_amount as i128 + self.held_amount as i128
    }

    pub fn get_available_amount(&self) -> (available: i64)
        ensures
            available as int == self@.available,
    {
        self.available_amount
    }

    /// Add `amount` (which may be negative) to the available funds.
    pub fn adjust_available_amount(&mut self, amount: i64)
        requires
            i64::MIN as int <= old(self)@.available + amount <= i64::MAX as int,
        ensures
            final(self)@.available == old(self)@.available + amount,
            final(self)@.held == old(self)@.held,
            final(self)@.locked == old(self)@.locked,
            final(self).spec_id() == old(self).spec_id(),
    {
        self.available_amount = self.available_amount + amount;
    }

    pub fn get_held_amount(&self) -> (held: i64)
        ensures
            held as int == self@.held,
    {
        self.held_amount
    }

    /// Add `amount` (which may be negative) to the held funds.
    pub fn adjust_held_amount(&mut self, amount: i64)
        requires
            i64::MIN as int <= old(self)@.held + amount <= i64::MAX as int,
        ensures
            final(self)@.held == old(self)@.held + amount,
            final(self)@.available == old(self)@.available,
            final(self)@.locked == old(self)@.locked,
            final(self).spec_id() == old(self).spec_id(),
    {
        self.held_amount = self.held_amount + amount;
    }

    pub fn get_is_locked(&self) -> (locked: bool)
        ensures
            locked == self@.locked,
    {
        self.is_locked
    }

    pub fn set_is_locked(&mut self, locked: bool)
        ensures
            final(self)@.locked == locked,
            final(self)@.available == old(self)@.available,
            final(self)@.held == old(self)@.held,
            final(self).spec_id() == old(self).spec_id(),
    {
        self.is_locked = locked;
    }
}

} // verus!
