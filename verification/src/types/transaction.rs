//! Transactions and their types.

use vstd::prelude::*;

use crate::error::{ParseError, PaymentError};
use crate::text;
use crate::text::{lower_equals, str_chars, trim_bounds};
use crate::types::Amount;

verus! {

/// Types of transactions the engine supports.
#[derive(Debug, Clone, Copy, PartialEq, Eq, Structural)]
pub enum TransactionType {
    /// Deposit funds into a client account.
    Deposit,
    /// Withdraw funds from a client account.
    Withdrawal,
    /// Dispute a deposit (hold its funds).
    Dispute,
    /// Resolve a dispute (release the held funds).
    Resolve,
    /// Charge back a dispute (remove the held funds and lock the account).
    Chargeback,
}

/// A single transaction.
#[derive(Debug, Clone, Copy, PartialEq, Eq, Structural)]
pub struct Transaction {
    /// Transaction type.
    pub tx_type: TransactionType,
    /// Client ID.
    pub client: u16,
    /// Transaction ID.
    pub tx: u32,
    /// Amount: present for deposits and withdrawals, absent for the dispute kinds.
    pub amount: Option<Amount>,
}

/// Whether a transaction type moves balances directly.
pub open spec fn is_balance_type(t: TransactionType) -> bool {
    t == TransactionType::Deposit || t == TransactionType::Withdrawal
}

/// What `validate` gives: deposits and withdrawals need an amount, and a non-negative one;
/// disputes, resolves and chargebacks must not carry one.
pub open spec fn spec_validate(tx: Transaction) -> Result<(), PaymentError> {
    if is_balance_type(tx.tx_type) {
        match tx.amount {
            None => Err(PaymentError::Parse(ParseError::MissingAmount(tx.tx))),
            Some(a) => if a.0 < 0 {
                Err(PaymentError::Parse(ParseError::NegativeAmount(tx.tx)))
            } else {
                Ok(())
            },
        }
    } else {
        match tx.amount {
            None => Ok(()),
            Some(_) => Err(PaymentError::Parse(ParseError::UnexpectedAmount(tx.tx))),
        }
    }
}

/// The transaction type named by `s`: the text is trimmed of white space and compared,
/// without regard to case, with "deposit", "withdrawal", "dispute", "resolve" and
/// "chargeback", as `str::to_lowercase` compares them (see `text::fold_case`).
pub open spec fn spec_type_named(s: Seq<char>) -> Option<TransactionType> {
    let l = text::fold_case(text::trim(s));
    if l == "deposit"@ {
        Some(TransactionType::Deposit)
    } else if l == "withdrawal"@ {
        Some(TransactionType::Withdrawal)
    } else if l == "dispute"@ {
        Some(TransactionType::Dispute)
    } else if l == "resolve"@ {
        Some(TransactionType::Resolve)
    } else if l == "chargeback"@ {
        Some(TransactionType::Chargeback)
    } else {
        None
    }
}

impl TransactionType {
    /// Parses a transaction type name; an unknown name fails with
    /// `InvalidTransactionType` carrying the text as given.
    pub fn from_str(s: &str) -> (r: Result<TransactionType, ParseError>)
        ensures
            match spec_type_named(s@) {
                Some(t) => r == Ok::<TransactionType, ParseError>(t),
                None => r matches Err(ParseError::InvalidTransactionType(m)) && m@ == s@,
            },
    {
        let cs = str_chars(s);
        let (a, b) = trim_bounds(&cs);
        if lower_equals(&cs, a, b, "deposit") {
            Ok(TransactionType::Deposit)
        } else if lower_equals(&cs, a, b, "withdrawal") {
            Ok(TransactionType::Withdrawal)
        } else if lower_equals(&cs, a, b, "dispute") {
            Ok(TransactionType::Dispute)
        } else if lower_equals(&cs, a, b, "resolve") {
            Ok(TransactionType::Resolve)
        } else if lower_equals(&cs, a, b, "chargeback") {
            Ok(TransactionType::Chargeback)
        } else {
            Err(ParseError::InvalidTransactionType(s.to_string()))
        }
    }
}

impl std::str::FromStr for TransactionType {
    type Err = ParseError;

    fn from_str(s: &str) -> (r: Result<TransactionType, ParseError>)
        ensures
            match spec_type_named(s@) {
                Some(t) => r == Ok::<TransactionType, ParseError>(t),
                None => r matches Err(ParseError::InvalidTransactionType(m)) && m@ == s@,
            },
    {
        TransactionType::from_str(s)
    }
}

impl Transaction {
    /// Creates a transaction.
    pub fn new(tx_type: TransactionType, client: u16, tx: u32, amount: Option<Amount>) -> (t: Self)
        ensures
            t == (Transaction { tx_type, client, tx, amount }),
    {
        Transaction { tx_type, client, tx, amount }
    }

    /// Creates a deposit.
    pub fn deposit(client: u16, tx: u32, amount: Amount) -> (t: Self)
        ensures
            t == (Transaction { tx_type: TransactionType::Deposit, client, tx, amount: Some(amount) }),
    {
        Self::new(TransactionType::Deposit, client, tx, Some(amount))
    }

    /// Creates a withdrawal.
    pub fn withdrawal(client: u16, tx: u32, amount: Amount) -> (t: Self)
        ensures
            t == (Transaction { tx_type: TransactionType::Withdrawal, client, tx, amount: Some(amount) }),
    {
        Self::new(TransactionType::Withdrawal, client, tx, Some(amount))
    }

    /// Creates a dispute of transaction `tx`.
    pub fn dispute(client: u16, tx: u32) -> (t: Self)
        ensures
            t == (Transaction { tx_type: TransactionType::Dispute, client, tx, amount: None }),
    {
        Self::new(TransactionType::Dispute, client, tx, None)
    }

    /// Creates a resolve of the dispute of transaction `tx`.
    pub fn resolve(client: u16, tx: u32) -> (t: Self)
        ensures
            t == (Transaction { tx_type: TransactionType::Resolve, client, tx, amount: None }),
    {
        Self::new(TransactionType::Resolve, client, tx, None)
    }

    /// Creates a chargeback of the dispute of transaction `tx`.
    pub fn chargeback(client: u16, tx: u32) -> (t: Self)
        ensures
            t == (Transaction { tx_type: TransactionType::Chargeback, client, tx, amount: None }),
    {
        Self::new(TransactionType::Chargeback, client, tx, None)
    }

    /// Validates the structure: deposits and withdrawals carry a non-negative amount;
    /// disputes, resolves and chargebacks carry none.
    pub fn validate(&self) -> (r: Result<(), PaymentError>)
        ensures
            r == spec_validate(*self),
    {
        match self.tx_type {
            TransactionType::Deposit | TransactionType::Withdrawal => {
                match self.amount {
                    None => Err(PaymentError::Parse(ParseError::MissingAmount(self.tx))),
                    Some(amount) => {
                        if amount.is_negative() {
                            Err(PaymentError::Parse(ParseError::NegativeAmount(self.tx)))
                        } else {
                            Ok(())
                        }
                    },
                }
            },
            TransactionType::Dispute | TransactionType::Resolve | TransactionType::Chargeback => {
                match self.amount {
                    None => Ok(()),
                    Some(_) => Err(PaymentError::Parse(ParseError::UnexpectedAmount(self.tx))),
                }
            },
        }
    }

    /// Whether this transaction moves balances directly (deposit or withdrawal).
    pub fn is_balance_transaction(&self) -> (b: bool)
        ensures
            b == is_balance_type(self.tx_type),
    {
        match self.tx_type {
            TransactionType::Deposit | TransactionType::Withdrawal => true,
            _ => false,
        }
    }

    /// Whether this transaction is one of the dispute kinds.
    pub fn is_dispute_transaction(&self) -> (b: bool)
        ensures
            b == !is_balance_type(self.tx_type),
    {
        match self.tx_type {
            TransactionType::Dispute | TransactionType::Resolve | TransactionType::Chargeback => true,
            _ => false,
        }
    }
}

} // verus!
