//! Dispute status tracking: a small state machine per disputed transaction.
//!
//! Valid transitions: none -> `Active` -> `Resolved`, and none -> `Active` -> `Chargedback`.
//! A transaction that has been disputed once cannot be disputed again.

use std::collections::HashMap;
use vstd::prelude::*;

use crate::types::TxId;
use vstd::std_specs::hash::spec_keys_iter;
use vstd::std_specs::iter::IteratorSpec;

verus! {

broadcast use vstd::std_specs::hash::group_hash_axioms;

/// Status of a dispute.
#[derive(Debug, Clone, Copy, PartialEq, Eq, Structural)]
pub enum DisputeStatus {
    /// The dispute is ongoing; the funds are held.
    Active,
    /// The dispute was resolved; the funds went back to available.
    Resolved,
    /// The dispute ended in a chargeback; the funds were removed and the account locked.
    Chargedback,
}

/// Disputes by referenced transaction ID.
pub type DisputeStore = HashMap<TxId, DisputeStatus>;

/// Whether `tx_id` has an active dispute in `m`.
pub open spec fn spec_is_active(m: Map<TxId, DisputeStatus>, tx_id: TxId) -> bool {
    m.contains_key(tx_id) && m[tx_id] == DisputeStatus::Active
}

/// The transaction IDs whose dispute is active.
pub open spec fn active_ids(m: Map<TxId, DisputeStatus>) -> Set<TxId> {
    m.dom().filter(|k: TxId| m[k] == DisputeStatus::Active)
}

/// Tries to open a dispute on `tx_id`; succeeds (none -> `Active`) only when the
/// transaction has never been disputed.
pub fn begin_dispute(store: &mut DisputeStore, tx_id: TxId) -> (ok: bool)
    ensures
        ok == !old(store)@.contains_key(tx_id),
        final(store)@ == if ok {
            old(store)@.insert(tx_id, DisputeStatus::Active)
        } else {
            old(store)@
        },
{
    if store.contains_key(&tx_id) {
        return false;
    }
    store.insert(tx_id, DisputeStatus::Active);
    true
}

/// Tries to resolve the dispute on `tx_id`; succeeds (`Active` -> `Resolved`) only
/// when that dispute is active.
pub fn resolve_dispute(store: &mut DisputeStore, tx_id: TxId) -> (ok: bool)
    ensures
        ok == spec_is_active(old(store)@, tx_id),
        final(store)@ == if ok {
            old(store)@.insert(tx_id, DisputeStatus::Resolved)
        } else {
            old(store)@
        },
{
    if !is_active_dispute(store, tx_id) {
        return false;
    }
    store.insert(tx_id, DisputeStatus::Resolved);
    true
}

/// Tries to charge back the dispute on `tx_id`; succeeds (`Active` -> `Chargedback`)
/// only when that dispute is active.
pub fn chargeback_dispute(store: &mut DisputeStore, tx_id: TxId) -> (ok: bool)
    ensures
        ok == spec_is_active(old(store)@, tx_id),
        final(store)@ == if ok {
            old(store)@.insert(tx_id, DisputeStatus::Chargedback)
        } else {
            old(store)@
        },
{
    if !is_active_dispute(store, tx_id) {
        return false;
    }
    store.insert(tx_id, DisputeStatus::Chargedback);
    true
}

/// Whether `tx_id` currently has an active dispute.
pub fn is_active_dispute(store: &DisputeStore, tx_id: TxId) -> (b: bool)
    ensures
        b == spec_is_active(store@, tx_id),
{
    match store.get(&tx_id) {
        Some(DisputeStatus::Active) => true,
        _ => false,
    }
}

} // verus!

verus! {

/// Number of active disputes.
pub fn active_count(store: &DisputeStore) -> (n: usize)
    ensures
        n == active_ids(store@).len(),
{
    let total = store.len();
    let ghost m = store@;
    let ghost ks: Seq<TxId> = spec_keys_iter(store).remaining().unref();
    let ghost mut counted: Set<TxId> = Set::empty();
    let mut count: usize = 0;
    proof {
        assert(ks.to_set() == m.dom());
        assert(ks.no_duplicates());
    }
    for k in it: store.keys()
        invariant
            m == store@,
            ks == it.seq().unref(),
            ks.no_duplicates(),
            ks.to_set() == m.dom(),
            ks.len() == m.dom().len(),
            total == m.dom().len(),
            counted.finite(),
            counted == ks.take(it.index()).to_set().filter(|x: TxId| m[x] == DisputeStatus::Active),
            count == counted.len(),
            count <= it.index(),
    {
        let ghost i = it.index();
        assert(ks[i] == *k);
        assert forall|x: TxId| #[trigger] ks.take(i + 1).to_set().contains(x)
            <==> ks.take(i).to_set().insert(*k).contains(x) by {
            if ks.take(i + 1).contains(x) {
                let j = choose|j: int| 0 <= j < i + 1 && #[trigger] ks.take(i + 1)[j] == x;
                if j < i {
                    assert(ks.take(i)[j] == x);
                }
            }
            if ks.take(i).contains(x) {
                let j = choose|j: int| 0 <= j < i && #[trigger] ks.take(i)[j] == x;
                assert(ks.take(i + 1)[j] == x);
            }
            if x == *k {
                assert(ks.take(i + 1)[i] == x);
            }
        }
        assert(ks.take(i + 1).to_set() =~= ks.take(i).to_set().insert(*k));
        assert(!ks.take(i).to_set().contains(*k)) by {
            if ks.take(i).to_set().contains(*k) {
                let j = choose|j: int| 0 <= j < i && ks.take(i)[j] == *k;
                assert(ks[j] == ks[i]);
            }
        }
        assert(m.dom().contains(*k)) by {
            assert(ks.to_set().contains(ks[i]));
        }
        if is_active_dispute(store, *k) {
            proof {
                counted = counted.insert(*k);
                assert(counted =~= ks.take(i + 1).to_set().filter(|x: TxId| m[x] == DisputeStatus::Active));
            }
            count = count + 1;
        } else {
            proof {
                assert(counted =~= ks.take(i + 1).to_set().filter(|x: TxId| m[x] == DisputeStatus::Active));
            }
        }
    }
    proof {
        assert(ks.take(ks.len() as int) =~= ks);
        assert(counted =~= active_ids(m));
    }
    count
}

} // verus!
