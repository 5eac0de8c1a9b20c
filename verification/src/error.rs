//! Error types for the payment processing engine.

use vstd::prelude::*;

use crate::types::Amount;

verus! {

/// Main error type for the payment processing engine.
#[derive(Debug)]
pub enum PaymentError {
    /// Amount-related errors.
    Amount(AmountError),
    /// Parse-related errors.
    Parse(ParseError),
    /// Processing errors.
    Processing(ProcessingError),
}

/// Errors related to amount operations.
#[derive(Debug, PartialEq, Eq)]
pub enum AmountError {
    Overflow,
    Underflow,
    ParseError(String),
}

/// Errors related to transaction parsing.
#[derive(Debug, PartialEq, Eq)]
pub enum ParseError {
    InvalidTransactionType(String),
    MissingAmount(u32),
    NegativeAmount(u32),
    UnexpectedAmount(u32),
    InvalidCsvRow(String),
}

/// Errors that occur during transaction processing.
#[derive(Debug, Clone, Copy, PartialEq, Eq, Structural)]
pub enum ProcessingError {
    InsufficientFunds { client: u16, available: Amount, requested: Amount },
    TransactionNotFound { client: u16, tx_id: u32 },
    AccountLocked { client: u16 },
    DisputeNotFound { client: u16, tx_id: u32 },
    AlreadyDisputed { client: u16, tx_id: u32 },
    DisputeNotActive { client: u16, tx_id: u32 },
    ClientMismatch { tx_id: u32, owner: u16, requester: u16 },
    DuplicateTransaction { tx_id: u32 },
}

impl ProcessingError {
    /// Creates an insufficient funds error.
    pub fn insufficient_funds(client: u16, available: Amount, requested: Amount) -> (e: Self)
        ensures
            e == (ProcessingError::InsufficientFunds { client, available, requested }),
    {
        ProcessingError::InsufficientFunds { client, available, requested }
    }
}

impl From<AmountError> for PaymentError {
    fn from(e: AmountError) -> (r: Self) {
        PaymentError::Amount(e)
    }
}

impl vstd::std_specs::convert::FromSpecImpl<AmountError> for PaymentError {
    open spec fn obeys_from_spec() -> bool {
        true
    }

    open spec fn from_spec(e: AmountError) -> Self {
        PaymentError::Amount(e)
    }
}

impl From<ParseError> for PaymentError {
    fn from(e: ParseError) -> (r: Self) {
        PaymentError::Parse(e)
    }
}

impl vstd::std_specs::convert::FromSpecImpl<ParseError> for PaymentError {
    open spec fn obeys_from_spec() -> bool {
        true
    }

    open spec fn from_spec(e: ParseError) -> Self {
        PaymentError::Parse(e)
    }
}

impl From<ProcessingError> for PaymentError {
    fn from(e: ProcessingError) -> (r: Self) {
        PaymentError::Processing(e)
    }
}

impl vstd::std_specs::convert::FromSpecImpl<ProcessingError> for PaymentError {
    open spec fn obeys_from_spec() -> bool {
        true
    }

    open spec fn from_spec(e: ProcessingError) -> Self {
        PaymentError::Processing(e)
    }
}

} // verus!
