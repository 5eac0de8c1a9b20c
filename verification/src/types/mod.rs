//! Core types used throughout the payment processing engine.

pub mod account;
pub mod amount;
pub mod transaction;

pub use account::Account;
pub use amount::Amount;
pub use transaction::{Transaction, TransactionType};

use vstd::prelude::*;

verus! {

/// Transaction identifier.
pub type TxId = u32;

/// Client identifier.
pub type ClientId = u16;

/// Kind of a monetary transaction.
#[derive(Debug, Clone, Copy, PartialEq, Eq, Structural)]
pub enum MonetaryTxKind {
    Deposit,
    Withdrawal,
}

/// A stored monetary transaction, the source of truth for later references to it.
#[derive(Debug, Clone, Copy, PartialEq, Eq, Structural)]
pub struct MonetaryTx {
    /// Client that owns this transaction.
    pub client_id: ClientId,
    /// Transaction amount.
    pub amount: Amount,
    /// Transaction kind.
    pub kind: MonetaryTxKind,
}

impl MonetaryTx {
    /// Whether this transaction is a deposit.
    pub fn is_deposit(&self) -> (b: bool)
        ensures
            b == (self.kind == MonetaryTxKind::Deposit),
    {
        match self.kind {
            MonetaryTxKind::Deposit => true,
            MonetaryTxKind::Withdrawal => false,
        }
    }
}

} // verus!
