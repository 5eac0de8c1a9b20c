//! Client accounts.

use vstd::prelude::*;

use crate::types::amount;
use crate::types::Amount;

verus! {

/// A client account: available funds, held (disputed) funds and a lock flag.
#[derive(Debug, Clone, Copy, PartialEq, Eq, Structural)]
pub struct Account {
    /// Client ID.
    pub client: u16,
    /// Available funds.
    pub available: Amount,
    /// Held funds (disputed transactions).
    pub held: Amount,
    /// Whether the account is locked (after a chargeback).
    pub locked: bool,
}

/// The fresh account of `client`: zero balances, unlocked.
pub open spec fn spec_new_account(client: u16) -> Account {
    Account { client, available: Amount(0), held: Amount(0), locked: false }
}

/// What `total` reports: available plus held, or zero where that sum leaves the `i64` range.
pub open spec fn spec_total(a: Account) -> int {
    if amount::fits_raw(a.available@ + a.held@) {
        a.available@ + a.held@
    } else {
        0
    }
}

impl Account {
    /// Creates a new account with zero balances.
    pub fn new(client: u16) -> (a: Self)
        ensures
            a == spec_new_account(client),
    {
        Account { client, available: Amount::zero(), held: Amount::zero(), locked: false }
    }

    /// Total funds: available plus held (zero where the sum does not fit).
    pub fn total(&self) -> (t: Amount)
        ensures
            t@ == spec_total(*self),
    {
        match self.available.add_checked(self.held) {
            Ok(t) => t,
            Err(_) => Amount::zero(),
        }
    }

    /// Whether the available funds cover `amount`.
    pub fn has_sufficient_funds(&self, amount: Amount) -> (b: bool)
        ensures
            b == (self.available@ >= amount@),
    {
        self.available.gte(&amount)
    }

    /// Whether the account is locked.
    pub fn is_locked(&self) -> (b: bool)
        ensures
            b == self.locked,
    {
        self.locked
    }

    /// Locks the account (after a chargeback).
    pub fn lock(&mut self)
        ensures
            *final(self) == (Account { locked: true, ..*old(self) }),
    {
        self.locked = true;
    }
}

} // verus!
