//! A payment processing engine: deposits, withdrawals, disputes, resolves and
//! chargebacks over client accounts, with fixed-point amounts of four decimal places.
//!
//! The engine's state and each transaction's effect are stated over a mathematical
//! model (`engine::model`); `engine::laws` proves what processing keeps across calls.

pub mod engine;
pub mod error;
pub mod storage;
pub mod text;
pub mod types;

pub use engine::PaymentProcessor;
pub use error::PaymentError;
pub use types::{Account, Amount, Transaction, TransactionType};
