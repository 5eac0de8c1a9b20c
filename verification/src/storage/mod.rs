//! In-memory stores: accounts, monetary transactions and dispute status.

pub mod dispute_store;

pub use dispute_store::{
    active_count, begin_dispute, chargeback_dispute, is_active_dispute, resolve_dispute,
    DisputeStatus, DisputeStore,
};

use std::collections::HashMap;
use vstd::prelude::*;

use crate::types::{Account, ClientId, MonetaryTx, TxId};

verus! {

/// Account state: maps client IDs to their accounts.
pub type AccountState = HashMap<ClientId, Account>;

/// Stored monetary transactions, keyed by transaction ID.
pub type TxStore = HashMap<TxId, MonetaryTx>;

} // verus!
