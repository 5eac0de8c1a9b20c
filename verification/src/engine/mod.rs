//! The payment processing engine.

pub mod laws;
pub mod model;
pub mod processor;

pub use model::{IgnoredReason, ProcessingOutcome};
pub use processor::PaymentProcessor;
