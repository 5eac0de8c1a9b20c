//! Laws of the engine: what every transition keeps, and what processing promises
//! across calls.

use vstd::prelude::*;

use crate::engine::model;
use crate::engine::model::{IgnoredReason, ProcessingOutcome, ProcessorView};
use crate::error::{PaymentError, ProcessingError};
use crate::storage::DisputeStatus;
use crate::text;
use crate::types::account;
use crate::types::amount;
use crate::types::transaction;
use crate::types::{Account, ClientId, MonetaryTxKind, Transaction, TransactionType, TxId};

verus! {

/// The engine's well-formedness: every stored transaction's ID is recorded as used and
/// has a non-negative amount and an owner with an account; every dispute refers to a
/// stored deposit; every account is filed under its own client ID.
pub open spec fn wf(s: ProcessorView) -> bool {
    &&& forall|t: TxId| #[trigger] s.txs.contains_key(t) ==> s.seen.contains(t)
    &&& forall|t: TxId| #[trigger] s.txs.contains_key(t) ==> s.txs[t].amount@ >= 0
    &&& forall|t: TxId| #[trigger]
        s.txs.contains_key(t) ==> s.accounts.contains_key(s.txs[t].client_id)
    &&& forall|t: TxId| #[trigger]
        s.disputes.contains_key(t) ==> s.txs.contains_key(t) && s.txs[t].kind
            == MonetaryTxKind::Deposit
    &&& forall|c: ClientId| #[trigger] s.accounts.contains_key(c) ==> s.accounts[c].client == c
}

/// A processor with nothing processed is well-formed.
pub proof fn lemma_empty_wf()
    ensures
        wf(model::empty_view()),
{
}

/// Processing any transaction keeps the engine well-formed.
pub proof fn lemma_step_preserves_wf(s: ProcessorView, tx: Transaction)
    requires
        wf(s),
    ensures
        wf(model::spec_step(s, tx).0),
{
    let s2 = model::spec_step(s, tx).0;
    assert(wf(s2));
}


/// Whether `tx` is a deposit or a withdrawal that passes validation.
pub open spec fn is_valid_monetary(tx: Transaction) -> bool {
    &&& (tx.tx_type == TransactionType::Deposit || tx.tx_type == TransactionType::Withdrawal)
    &&& tx.amount matches Some(a) && a.0 >= 0
}

/// Accounts are never removed, and a locked account stays locked.
pub proof fn lemma_accounts_persist_and_lock_is_permanent(s: ProcessorView, tx: Transaction, c: ClientId)
    requires
        s.accounts.contains_key(c),
    ensures
        model::spec_step(s, tx).0.accounts.contains_key(c),
        s.accounts[c].locked ==> model::spec_step(s, tx).0.accounts[c].locked,
{
}

/// A locked account is frozen: no transaction changes it; a deposit or withdrawal of
/// its client under an unused ID, and a (well-formed) dispute, resolve or chargeback of
/// one of its deposits, whoever sends it, fail with `AccountLocked`.
pub proof fn lemma_locked_account_is_frozen(s: ProcessorView, tx: Transaction, c: ClientId)
    requires
        model::is_locked_in(s, c),
    ensures
        model::spec_step(s, tx).0.accounts[c] == s.accounts[c],
        is_valid_monetary(tx) && tx.client == c && !s.seen.contains(tx.tx) ==> model::spec_step(
            s,
            tx,
        ).1 == Err::<ProcessingOutcome, PaymentError>(
            PaymentError::Processing(ProcessingError::AccountLocked { client: c }),
        ),
        !transaction::is_balance_type(tx.tx_type) && tx.amount is None && s.txs.contains_key(tx.tx) && s.txs[tx.tx].kind
            == MonetaryTxKind::Deposit && s.txs[tx.tx].client_id == c ==> model::spec_step(
            s,
            tx,
        ).1 == Err::<ProcessingOutcome, PaymentError>(
            PaymentError::Processing(ProcessingError::AccountLocked { client: c }),
        ),
{
}

/// Once used by a deposit or withdrawal that passes validation, a transaction ID stays used.
pub proof fn lemma_monetary_id_is_recorded(s: ProcessorView, tx: Transaction)
    requires
        is_valid_monetary(tx),
    ensures
        model::spec_step(s, tx).0.seen.contains(tx.tx),
        s.seen <= model::spec_step(s, tx).0.seen,
{
}

/// A deposit or withdrawal under a used ID fails with `DuplicateTransaction` and changes nothing.
pub proof fn lemma_duplicate_id_rejected(s: ProcessorView, tx: Transaction)
    requires
        is_valid_monetary(tx),
        s.seen.contains(tx.tx),
    ensures
        model::spec_step(s, tx).0 == s,
        model::spec_step(s, tx).1 == Err::<ProcessingOutcome, PaymentError>(
            PaymentError::Processing(ProcessingError::DuplicateTransaction { tx_id: tx.tx }),
        ),
{
}

/// No transaction forgets a used ID.
pub proof fn lemma_seen_grows(s: ProcessorView, tx: Transaction)
    ensures
        s.seen <= model::spec_step(s, tx).0.seen,
{
}

/// Processing the transactions `txs` in order, from `s`.
pub open spec fn run(s: ProcessorView, txs: Seq<Transaction>) -> ProcessorView
    decreases txs.len(),
{
    if txs.len() == 0 {
        s
    } else {
        run(model::spec_step(s, txs[0]).0, txs.drop_first())
    }
}

/// No sequence of transactions forgets a used ID.
pub proof fn lemma_run_seen_grows(s: ProcessorView, txs: Seq<Transaction>)
    ensures
        s.seen <= run(s, txs).seen,
    decreases txs.len(),
{
    if txs.len() > 0 {
        lemma_seen_grows(s, txs[0]);
        lemma_run_seen_grows(model::spec_step(s, txs[0]).0, txs.drop_first());
    }
}

/// Transaction IDs are globally unique: once a deposit or withdrawal has been processed,
/// whatever came of it, any later deposit or withdrawal under the same ID, by whichever
/// client and after whichever transactions, fails with `DuplicateTransaction` and
/// changes nothing.
pub proof fn lemma_ids_unique_forever(
    s: ProcessorView,
    first: Transaction,
    between: Seq<Transaction>,
    second: Transaction,
)
    requires
        is_valid_monetary(first),
        is_valid_monetary(second),
        first.tx == second.tx,
    ensures
        ({
            let later = run(model::spec_step(s, first).0, between);
            &&& model::spec_step(later, second).0 == later
            &&& model::spec_step(later, second).1 == Err::<ProcessingOutcome, PaymentError>(
                PaymentError::Processing(ProcessingError::DuplicateTransaction { tx_id: second.tx }),
            )
        }),
{
    lemma_monetary_id_is_recorded(s, first);
    lemma_run_seen_grows(model::spec_step(s, first).0, between);
    lemma_duplicate_id_rejected(run(model::spec_step(s, first).0, between), second);
}

/// The transaction `kind` of `client` on `tx_id`, with no amount.
pub open spec fn reference_tx(kind: TransactionType, client: ClientId, tx_id: TxId) -> Transaction {
    Transaction { tx_type: kind, client, tx: tx_id, amount: None }
}

/// A dispute then a resolve of a deposit restore every account as it was; the dispute
/// is then over, and disputing the deposit again is ignored.
pub proof fn lemma_dispute_then_resolve_restores(s: ProcessorView, o: ClientId, t: TxId)
    requires
        wf(s),
        s.txs.contains_key(t),
        s.txs[t].kind == MonetaryTxKind::Deposit,
        s.txs[t].client_id == o,
        model::spec_step(s, reference_tx(TransactionType::Dispute, o, t)).1 == Ok::<
            ProcessingOutcome,
            PaymentError,
        >(ProcessingOutcome::Applied),
    ensures
        ({
            let s1 = model::spec_step(s, reference_tx(TransactionType::Dispute, o, t)).0;
            let resolved = model::spec_step(s1, reference_tx(TransactionType::Resolve, o, t));
            let again = model::spec_step(resolved.0, reference_tx(TransactionType::Dispute, o, t));
            &&& resolved.1 == Ok::<ProcessingOutcome, PaymentError>(ProcessingOutcome::Applied)
            &&& resolved.0.accounts == s.accounts
            &&& resolved.0.disputes[t] == DisputeStatus::Resolved
            &&& again.0 == resolved.0
            &&& again.1 == Ok::<ProcessingOutcome, PaymentError>(
                ProcessingOutcome::Ignored(IgnoredReason::DisputeAlreadyFinalized { tx_id: t }),
            )
        }),
{
    let s1 = model::spec_step(s, reference_tx(TransactionType::Dispute, o, t)).0;
    let s2 = model::spec_step(s1, reference_tx(TransactionType::Resolve, o, t)).0;
    assert(s2.accounts =~= s.accounts);
}

/// A row that is ignored changes nothing, and so does one that fails validation.
pub proof fn lemma_ignored_changes_nothing(s: ProcessorView, tx: Transaction)
    ensures
        model::spec_step(s, tx).1 matches Ok(ProcessingOutcome::Ignored(_)) ==> model::spec_step(
            s,
            tx,
        ).0 == s,
        model::spec_step(s, tx).1 matches Err(PaymentError::Parse(_)) ==> model::spec_step(
            s,
            tx,
        ).0 == s,
{
}

/// The dispute state machine: a dispute, once opened, is never forgotten; a new dispute
/// is `Active`; a resolved or charged-back dispute never changes again; and no transaction
/// other than the one named by the request changes a dispute.
pub proof fn lemma_dispute_transitions(s: ProcessorView, tx: Transaction, t: TxId)
    ensures
        ({
            let d = model::spec_step(s, tx).0.disputes;
            &&& s.disputes.contains_key(t) ==> d.contains_key(t)
            &&& !s.disputes.contains_key(t) && d.contains_key(t) ==> d[t] == DisputeStatus::Active
                && t == tx.tx && tx.tx_type == TransactionType::Dispute
            &&& s.disputes.contains_key(t) && s.disputes[t] != DisputeStatus::Active ==> d[t]
                == s.disputes[t]
            &&& t != tx.tx ==> d.contains_key(t) == s.disputes.contains_key(t) && (d.contains_key(t)
                ==> d[t] == s.disputes[t])
        }),
{
}

/// Only deposits are ever disputed: the status map only names stored deposits (given
/// well-formedness, which every step keeps).
pub proof fn lemma_only_deposits_disputed(s: ProcessorView, tx: Transaction, t: TxId)
    requires
        wf(s),
        model::spec_step(s, tx).0.disputes.contains_key(t),
    ensures
        model::spec_step(s, tx).0.txs.contains_key(t),
        model::spec_step(s, tx).0.txs[t].kind == MonetaryTxKind::Deposit,
{
    lemma_step_preserves_wf(s, tx);
}

/// An applied dispute (sent by the deposit's owner) moves the deposit's amount from
/// available to held, and an applied resolve (sent by anyone) moves it back; neither
/// changes any other account, and the owner's total (available plus held) stays as it was.
pub proof fn lemma_dispute_and_resolve_move_funds(s: ProcessorView, tx: Transaction, c: ClientId)
    requires
        wf(s),
        tx.tx_type == TransactionType::Dispute || tx.tx_type == TransactionType::Resolve,
        model::spec_step(s, tx).1 == Ok::<ProcessingOutcome, PaymentError>(
            ProcessingOutcome::Applied,
        ),
    ensures
        ({
            let s2 = model::spec_step(s, tx).0;
            let amt = s.txs[tx.tx].amount@;
            let owner = s.txs[tx.tx].client_id;
            &&& tx.tx_type == TransactionType::Dispute ==> owner == tx.client
            &&& s2.accounts.dom() == s.accounts.dom()
            &&& c != owner && s.accounts.contains_key(c) ==> s2.accounts[c] == s.accounts[c]
            &&& tx.tx_type == TransactionType::Dispute ==> s2.accounts[owner].available@
                == s.accounts[owner].available@ - amt && s2.accounts[owner].held@
                == s.accounts[owner].held@ + amt
            &&& tx.tx_type == TransactionType::Resolve ==> s2.accounts[owner].available@
                == s.accounts[owner].available@ + amt && s2.accounts[owner].held@
                == s.accounts[owner].held@ - amt
            &&& s2.accounts[owner].available@ + s2.accounts[owner].held@
                == s.accounts[owner].available@ + s.accounts[owner].held@
            &&& s2.accounts[owner].locked == s.accounts[owner].locked
        }),
{
}

/// An applied chargeback removes the deposit's amount from held and locks the owner's
/// account, leaving its available funds as they were.
pub proof fn lemma_chargeback_removes_and_locks(s: ProcessorView, tx: Transaction)
    requires
        wf(s),
        tx.tx_type == TransactionType::Chargeback,
        model::spec_step(s, tx).1 == Ok::<ProcessingOutcome, PaymentError>(
            ProcessingOutcome::Applied,
        ),
    ensures
        ({
            let s2 = model::spec_step(s, tx).0;
            let owner = s.txs[tx.tx].client_id;
            &&& s2.accounts[owner].held@ == s.accounts[owner].held@ - s.txs[tx.tx].amount@
            &&& s2.accounts[owner].available == s.accounts[owner].available
            &&& s2.accounts[owner].locked
            &&& s2.disputes[tx.tx] == DisputeStatus::Chargedback
        }),
{
}

/// An applied withdrawal never overdraws: it takes its amount from available funds that
/// covered it, so available funds stay non-negative.
pub proof fn lemma_withdrawal_never_overdraws(s: ProcessorView, tx: Transaction)
    requires
        tx.tx_type == TransactionType::Withdrawal,
        model::spec_step(s, tx).1 == Ok::<ProcessingOutcome, PaymentError>(
            ProcessingOutcome::Applied,
        ),
    ensures
        ({
            let s2 = model::spec_step(s, tx).0;
            let before = model::account_or_new(s, tx.client);
            &&& s2.accounts[tx.client].available@ == before.available@ - tx.amount.unwrap()@
            &&& s2.accounts[tx.client].available@ >= 0
            &&& s2.accounts[tx.client].held == before.held
        }),
{
}

/// A withdrawal refused for insufficient funds leaves the client's balances as they were.
pub proof fn lemma_insufficient_funds_changes_no_balance(s: ProcessorView, tx: Transaction)
    requires
        tx.tx_type == TransactionType::Withdrawal,
        model::spec_step(s, tx).1 matches Err(
            PaymentError::Processing(ProcessingError::InsufficientFunds { .. }),
        ),
    ensures
        model::spec_step(s, tx).0.accounts[tx.client] == model::account_or_new(s, tx.client),
        model::spec_step(s, tx).0.txs == s.txs,
{
}

/// An applied deposit credits its amount to the client's available funds and stores the
/// deposit so that it can be disputed later.
pub proof fn lemma_deposit_credits(s: ProcessorView, tx: Transaction)
    requires
        tx.tx_type == TransactionType::Deposit,
        model::spec_step(s, tx).1 == Ok::<ProcessingOutcome, PaymentError>(
            ProcessingOutcome::Applied,
        ),
    ensures
        ({
            let s2 = model::spec_step(s, tx).0;
            let before = model::account_or_new(s, tx.client);
            &&& s2.accounts[tx.client].available@ == before.available@ + tx.amount.unwrap()@
            &&& s2.accounts[tx.client].held == before.held
            &&& s2.txs.contains_key(tx.tx)
            &&& s2.txs[tx.tx].kind == MonetaryTxKind::Deposit
            &&& s2.txs[tx.tx].amount == tx.amount.unwrap()
        }),
{
}


/// Adds the amount of the stored transaction `t` to `acc`.
pub open spec fn add_amount(s: ProcessorView) -> spec_fn(int, TxId) -> int {
    |acc: int, t: TxId| acc + s.txs[t].amount@
}

/// The transactions of `client` whose dispute is active.
pub open spec fn active_disputes_of(s: ProcessorView, client: ClientId) -> Set<TxId> {
    s.disputes.dom().filter(
        |t: TxId| s.disputes[t] == DisputeStatus::Active && s.txs[t].client_id == client,
    )
}

/// The sum of the amounts of the actively disputed transactions of `client`.
pub open spec fn disputed_sum(s: ProcessorView, client: ClientId) -> int {
    active_disputes_of(s, client).fold(0, add_amount(s))
}

/// Every account's held funds are the sum of its actively disputed deposits.
pub open spec fn held_matches_disputes(s: ProcessorView) -> bool {
    &&& s.disputes.dom().finite()
    &&& forall|c: ClientId| #[trigger]
        s.accounts.contains_key(c) ==> s.accounts[c].held@ == disputed_sum(s, c)
}

proof fn lemma_add_amount_commutative(s: ProcessorView)
    ensures
        vstd::set::fold::is_fun_commutative(add_amount(s)),
{
}

/// Sums over the same set agree where the amounts they add agree.
proof fn lemma_sum_congruent(ids: Set<TxId>, s1: ProcessorView, s2: ProcessorView)
    requires
        ids.finite(),
        forall|t: TxId| ids.contains(t) ==> s1.txs[t].amount == s2.txs[t].amount,
    ensures
        ids.fold(0, add_amount(s1)) == ids.fold(0, add_amount(s2)),
    decreases ids.len(),
{
    lemma_add_amount_commutative(s1);
    lemma_add_amount_commutative(s2);
    if ids.len() == 0 {
        assert(ids =~= Set::<TxId>::empty());
        vstd::set::fold::lemma_fold_empty(0, add_amount(s1));
        vstd::set::fold::lemma_fold_empty(0, add_amount(s2));
    } else {
        let x = ids.choose();
        let rest = ids.remove(x);
        lemma_sum_congruent(rest, s1, s2);
        assert(rest.insert(x) =~= ids);
        vstd::set::fold::lemma_fold_insert(rest, 0, add_amount(s1), x);
        vstd::set::fold::lemma_fold_insert(rest, 0, add_amount(s2), x);
    }
}

/// Taking a transaction out of a finite set takes its amount out of the sum.
proof fn lemma_sum_remove(ids: Set<TxId>, s: ProcessorView, t: TxId)
    requires
        ids.finite(),
        ids.contains(t),
    ensures
        ids.fold(0, add_amount(s)) == ids.remove(t).fold(0, add_amount(s)) + s.txs[t].amount@,
{
    lemma_add_amount_commutative(s);
    assert(ids.remove(t).insert(t) =~= ids);
    vstd::set::fold::lemma_fold_insert(ids.remove(t), 0, add_amount(s), t);
}


/// Where the disputes are as they were and the disputed transactions' amounts and owners
/// too, an account whose held funds are as they were (or a new one holding nothing)
/// still holds the sum of its active disputes.
proof fn lemma_held_frame(s: ProcessorView, s2: ProcessorView, c: ClientId)
    requires
        wf(s),
        held_matches_disputes(s),
        s2.disputes == s.disputes,
        forall|t: TxId| #[trigger] s.disputes.contains_key(t) ==> s2.txs[t] == s.txs[t],
        s2.accounts.contains_key(c),
        s.accounts.contains_key(c) ==> s2.accounts[c].held == s.accounts[c].held,
        !s.accounts.contains_key(c) ==> s2.accounts[c].held@ == 0,
    ensures
        s2.accounts[c].held@ == disputed_sum(s2, c),
{
    let a1 = active_disputes_of(s, c);
    let a2 = active_disputes_of(s2, c);
    assert(a2 =~= a1);
    assert(a1.finite()) by {
        assert(a1 <= s.disputes.dom());
        vstd::set_lib::lemma_len_subset(a1, s.disputes.dom());
    }
    lemma_sum_congruent(a1, s, s2);
    if !s.accounts.contains_key(c) {
        assert(a1 =~= Set::<TxId>::empty());
        vstd::set::fold::lemma_fold_empty(0, add_amount(s2));
    }
}

/// Deposits and withdrawals, whatever their outcome, keep every account's held funds
/// equal to the sum of its active disputes.
proof fn lemma_held_monetary(s: ProcessorView, tx: Transaction)
    requires
        wf(s),
        held_matches_disputes(s),
        tx.tx_type == TransactionType::Deposit || tx.tx_type == TransactionType::Withdrawal,
    ensures
        held_matches_disputes(model::spec_step(s, tx).0),
{
    let s2 = model::spec_step(s, tx).0;
    assert forall|c: ClientId| #[trigger] s2.accounts.contains_key(c) implies s2.accounts[c].held@
        == disputed_sum(s2, c) by {
        lemma_held_frame(s, s2, c);
    }
}

/// Applied disputes, resolves and chargebacks keep every account's held funds equal to
/// the sum of its active disputes, as do those that are ignored or refused before any
/// change.
proof fn lemma_held_dispute_kinds(s: ProcessorView, tx: Transaction)
    requires
        wf(s),
        held_matches_disputes(s),
        tx.tx_type == TransactionType::Dispute || tx.tx_type == TransactionType::Resolve
            || tx.tx_type == TransactionType::Chargeback,
        !(model::spec_step(s, tx).1 matches Err(PaymentError::Amount(_))),
    ensures
        held_matches_disputes(model::spec_step(s, tx).0),
{
    let s2 = model::spec_step(s, tx).0;
    let t = tx.tx;
    if s2 == s {
    } else {
        // The request went through: `t` is a stored deposit of `tx.client`.
        let o = s.txs[t].client_id;
        let amt = s.txs[t].amount@;
        assert(s2.txs == s.txs);
        assert(add_amount(s2) =~= add_amount(s));
        assert(s2.disputes.dom().finite()) by {
            assert(s2.disputes.dom() =~= s.disputes.dom().insert(t));
        }
        assert forall|c: ClientId| #[trigger] s2.accounts.contains_key(c) implies s2.accounts[c].held@
            == disputed_sum(s2, c) by {
            let a1 = active_disputes_of(s, c);
            let a2 = active_disputes_of(s2, c);
            assert(a1.finite()) by {
                vstd::set_lib::lemma_len_subset(a1, s.disputes.dom());
            }
            if c != o {
                assert(a2 =~= a1);
            } else if tx.tx_type == TransactionType::Dispute {
                assert(a2 =~= a1.insert(t));
                lemma_add_amount_commutative(s);
                vstd::set::fold::lemma_fold_insert(a1, 0, add_amount(s), t);
            } else {
                assert(a2 =~= a1.remove(t));
                lemma_sum_remove(a1, s, t);
            }
        }
    }
}

/// The held funds of every account are the sum of the amounts of its actively disputed
/// deposits, and processing keeps it so; the one exception is a dispute, resolve or
/// chargeback that fails with an amount overflow or underflow part-way, after the
/// dispute status has changed.
pub proof fn lemma_held_tracks_disputes(s: ProcessorView, tx: Transaction)
    requires
        wf(s),
        held_matches_disputes(s),
        !(model::spec_step(s, tx).1 matches Err(PaymentError::Amount(_))),
    ensures
        held_matches_disputes(model::spec_step(s, tx).0),
{
    if tx.tx_type == TransactionType::Deposit || tx.tx_type == TransactionType::Withdrawal {
        lemma_held_monetary(s, tx);
    } else {
        lemma_held_dispute_kinds(s, tx);
    }
}

/// A processor with nothing processed holds nothing and has no disputes.
pub proof fn lemma_empty_held_matches()
    ensures
        held_matches_disputes(model::empty_view()),
{
}


/// The available funds of `client` before a step: those of its account, or zero where
/// it has none yet.
pub open spec fn available_of(s: ProcessorView, client: ClientId) -> int {
    if s.accounts.contains_key(client) {
        s.accounts[client].available@
    } else {
        0
    }
}

/// The held funds of `client` before a step: those of its account, or zero where it
/// has none yet.
pub open spec fn held_of(s: ProcessorView, client: ClientId) -> int {
    if s.accounts.contains_key(client) {
        s.accounts[client].held@
    } else {
        0
    }
}

/// A deposit under an ID never used before, into an unlocked account, is applied
/// wherever the new balance fits: it credits its amount to available funds, leaves held
/// funds alone, and is stored for later disputes. `DuplicateTransaction` comes only for
/// an ID used before.
pub proof fn lemma_deposit_applied(s: ProcessorView, tx: Transaction)
    requires
        tx.tx_type == TransactionType::Deposit,
        tx.amount matches Some(a) && a.0 >= 0,
    ensures
        ({
            let r = model::spec_step(s, tx);
            let a = tx.amount.unwrap();
            &&& (!s.seen.contains(tx.tx) && !(s.accounts.contains_key(tx.client)
                && s.accounts[tx.client].locked) && available_of(s, tx.client) + a@
                <= i64::MAX) ==> {
                &&& r.1 == Ok::<ProcessingOutcome, PaymentError>(ProcessingOutcome::Applied)
                &&& r.0.accounts[tx.client].available@ == available_of(s, tx.client) + a@
                &&& r.0.accounts[tx.client].held@ == held_of(s, tx.client)
                &&& r.0.txs.contains_key(tx.tx)
                &&& r.0.txs[tx.tx].client_id == tx.client
                &&& r.0.txs[tx.tx].amount == a
                &&& r.0.txs[tx.tx].kind == MonetaryTxKind::Deposit
            }
            &&& r.1 matches Err(PaymentError::Processing(ProcessingError::DuplicateTransaction { .. }))
                ==> s.seen.contains(tx.tx)
        }),
{
}

/// A withdrawal under an ID never used before, from an unlocked client whose available
/// funds cover it, is applied whatever its held funds: available funds drop by the
/// amount and held funds stay. `DuplicateTransaction` comes only for an ID used before,
/// and `InsufficientFunds` only where available funds are below the amount.
pub proof fn lemma_withdrawal_applied(s: ProcessorView, tx: Transaction)
    requires
        tx.tx_type == TransactionType::Withdrawal,
        tx.amount matches Some(a) && a.0 >= 0,
    ensures
        ({
            let r = model::spec_step(s, tx);
            let a = tx.amount.unwrap();
            &&& (!s.seen.contains(tx.tx) && !(s.accounts.contains_key(tx.client)
                && s.accounts[tx.client].locked) && available_of(s, tx.client) >= a@) ==> {
                &&& r.1 == Ok::<ProcessingOutcome, PaymentError>(ProcessingOutcome::Applied)
                &&& r.0.accounts[tx.client].available@ == available_of(s, tx.client) - a@
                &&& r.0.accounts[tx.client].held@ == held_of(s, tx.client)
                &&& r.0.txs.contains_key(tx.tx)
                &&& r.0.txs[tx.tx].kind == MonetaryTxKind::Withdrawal
            }
            &&& r.1 matches Err(PaymentError::Processing(ProcessingError::DuplicateTransaction { .. }))
                ==> s.seen.contains(tx.tx)
            &&& r.1 matches Err(PaymentError::Processing(ProcessingError::InsufficientFunds { .. }))
                ==> available_of(s, tx.client) < a@
        }),
{
}

/// A dispute, by its owner, of any stored deposit never disputed before, on an unlocked
/// account, is applied wherever the balances fit, whatever the transaction ID: the
/// deposit's amount moves from available to held and its dispute becomes active.
pub proof fn lemma_dispute_applied(s: ProcessorView, tx: Transaction)
    requires
        wf(s),
        tx.tx_type == TransactionType::Dispute,
        tx.amount is None,
        s.txs.contains_key(tx.tx),
        s.txs[tx.tx].kind == MonetaryTxKind::Deposit,
        s.txs[tx.tx].client_id == tx.client,
        !s.disputes.contains_key(tx.tx),
        !s.accounts[tx.client].locked,
        i64::MIN <= s.accounts[tx.client].available@ - s.txs[tx.tx].amount@,
        s.accounts[tx.client].held@ + s.txs[tx.tx].amount@ <= i64::MAX,
    ensures
        ({
            let r = model::spec_step(s, tx);
            let amt = s.txs[tx.tx].amount@;
            &&& r.1 == Ok::<ProcessingOutcome, PaymentError>(ProcessingOutcome::Applied)
            &&& r.0.accounts[tx.client].available@ == s.accounts[tx.client].available@ - amt
            &&& r.0.accounts[tx.client].held@ == s.accounts[tx.client].held@ + amt
            &&& r.0.accounts[tx.client].locked == s.accounts[tx.client].locked
            &&& r.0.disputes[tx.tx] == DisputeStatus::Active
        }),
{
}

/// A chargeback of any stored deposit whose dispute is active, on an unlocked account,
/// is applied wherever the held funds fit, whoever sends it and whatever other disputes
/// are active: the owner's held funds drop by the deposit's amount, its available funds
/// stay, and its account is locked.
pub proof fn lemma_chargeback_applied(s: ProcessorView, tx: Transaction)
    requires
        wf(s),
        tx.tx_type == TransactionType::Chargeback,
        tx.amount is None,
        s.txs.contains_key(tx.tx),
        s.txs[tx.tx].kind == MonetaryTxKind::Deposit,
        s.disputes.contains_key(tx.tx),
        s.disputes[tx.tx] == DisputeStatus::Active,
        !s.accounts[s.txs[tx.tx].client_id].locked,
        i64::MIN <= s.accounts[s.txs[tx.tx].client_id].held@ - s.txs[tx.tx].amount@,
    ensures
        ({
            let r = model::spec_step(s, tx);
            let o = s.txs[tx.tx].client_id;
            &&& r.1 == Ok::<ProcessingOutcome, PaymentError>(ProcessingOutcome::Applied)
            &&& r.0.accounts[o].held@ == s.accounts[o].held@ - s.txs[tx.tx].amount@
            &&& r.0.accounts[o].available == s.accounts[o].available
            &&& r.0.accounts[o].locked
            &&& r.0.disputes[tx.tx] == DisputeStatus::Chargedback
        }),
{
}

/// A resolve of any stored deposit whose dispute is active, on an unlocked account, is
/// applied wherever the balances fit, whoever sends it: the deposit's amount moves from
/// held back to available.
pub proof fn lemma_resolve_applied(s: ProcessorView, tx: Transaction)
    requires
        wf(s),
        tx.tx_type == TransactionType::Resolve,
        tx.amount is None,
        s.txs.contains_key(tx.tx),
        s.txs[tx.tx].kind == MonetaryTxKind::Deposit,
        s.disputes.contains_key(tx.tx),
        s.disputes[tx.tx] == DisputeStatus::Active,
        !s.accounts[s.txs[tx.tx].client_id].locked,
        i64::MIN <= s.accounts[s.txs[tx.tx].client_id].held@ - s.txs[tx.tx].amount@,
        s.accounts[s.txs[tx.tx].client_id].available@ + s.txs[tx.tx].amount@ <= i64::MAX,
    ensures
        ({
            let r = model::spec_step(s, tx);
            let o = s.txs[tx.tx].client_id;
            &&& r.1 == Ok::<ProcessingOutcome, PaymentError>(ProcessingOutcome::Applied)
            &&& r.0.accounts[o].held@ == s.accounts[o].held@ - s.txs[tx.tx].amount@
            &&& r.0.accounts[o].available@ == s.accounts[o].available@ + s.txs[tx.tx].amount@
            &&& r.0.accounts[o].locked == s.accounts[o].locked
            &&& r.0.disputes[tx.tx] == DisputeStatus::Resolved
        }),
{
}


/// The number of line breaks in `s`.
pub open spec fn newlines(s: Seq<char>) -> nat
    decreases s.len(),
{
    if s.len() == 0 {
        0
    } else {
        newlines(s.drop_last()) + if s.last() == '\n' {
            1nat
        } else {
            0nat
        }
    }
}

/// Whether `part` occurs in `whole` as a run of consecutive characters.
pub open spec fn occurs(part: Seq<char>, whole: Seq<char>) -> bool {
    exists|i: int|
        0 <= i && i + part.len() <= whole.len() && #[trigger] whole.subrange(i, i + part.len())
            == part
}

/// The clients below `n` that have an account.
pub open spec fn clients_below(m: Map<ClientId, Account>, n: int) -> Set<ClientId> {
    m.dom().filter(|c: ClientId| (c as int) < n)
}

proof fn lemma_newlines_add(a: Seq<char>, b: Seq<char>)
    ensures
        newlines(a + b) == newlines(a) + newlines(b),
    decreases b.len(),
{
    if b.len() == 0 {
        assert(a + b =~= a);
    } else {
        assert((a + b).drop_last() =~= a + b.drop_last());
        assert((a + b).last() == b.last());
        lemma_newlines_add(a, b.drop_last());
    }
}

proof fn lemma_no_newline(s: Seq<char>)
    requires
        forall|i: int| 0 <= i < s.len() ==> s[i] != '\n',
    ensures
        newlines(s) == 0,
    decreases s.len(),
{
    if s.len() > 0 {
        lemma_no_newline(s.drop_last());
    }
}

proof fn lemma_amount_text_no_newline(v: int)
    ensures
        newlines(amount::amount_text(v)) == 0,
{
    let t = amount::amount_text(v);
    let q = (amount::abs(v) / 10000) as nat;
    text::lemma_dec_digits(q);
    let ds = text::dec(q);
    let fr = amount::pad4(amount::abs(v) % 10000);
    let sign = if v < 0 {
        seq!['-']
    } else {
        Seq::<char>::empty()
    };
    assert(t =~= sign + ds + seq!['.'] + fr);
    assert forall|i: int| 0 <= i < t.len() implies t[i] != '\n' by {
        if i < sign.len() {
        } else if i < sign.len() + ds.len() {
            assert(t[i] == ds[i - sign.len()]);
            assert(text::is_digit(ds[i - sign.len()]));
        } else if i == sign.len() + ds.len() {
        } else {
            assert(t[i] == fr[i - sign.len() - ds.len() - 1]);
        }
    }
    lemma_no_newline(t);
}

/// Every account's report line holds exactly one line break, at its end.
proof fn lemma_line_one_newline(a: Account)
    ensures
        newlines(model::account_line(a)) == 1,
{
    reveal_strlit("true");
    reveal_strlit("false");
    let comma = seq![','];
    let ds = text::dec(a.client as nat);
    text::lemma_dec_digits(a.client as nat);
    assert forall|i: int| 0 <= i < ds.len() implies ds[i] != '\n' by {
        assert(text::is_digit(ds[i]));
    }
    lemma_no_newline(ds);
    lemma_no_newline(comma);
    let av = amount::amount_text(a.available@);
    let hd = amount::amount_text(a.held@);
    let tt = amount::amount_text(account::spec_total(a));
    lemma_amount_text_no_newline(a.available@);
    lemma_amount_text_no_newline(a.held@);
    lemma_amount_text_no_newline(account::spec_total(a));
    let lk = if a.locked {
        "true"@
    } else {
        "false"@
    };
    lemma_no_newline(lk);
    let nl = seq!['\n'];
    assert(newlines(nl) == 1) by {
        assert(nl.drop_last() =~= Seq::<char>::empty());
        assert(nl.last() == '\n');
        assert(newlines(Seq::<char>::empty()) == 0);
    }
    let p1 = ds + comma;
    let p2 = p1 + av;
    let p3 = p2 + comma;
    let p4 = p3 + hd;
    let p5 = p4 + comma;
    let p6 = p5 + tt;
    let p7 = p6 + comma;
    let p8 = p7 + lk;
    lemma_newlines_add(ds, comma);
    lemma_newlines_add(p1, av);
    lemma_newlines_add(p2, comma);
    lemma_newlines_add(p3, hd);
    lemma_newlines_add(p4, comma);
    lemma_newlines_add(p5, tt);
    lemma_newlines_add(p6, comma);
    lemma_newlines_add(p7, lk);
    lemma_newlines_add(p8, nl);
    assert(model::account_line(a) =~= p8 + nl);
}

/// The lines of the clients below `n` hold one line break per client with an account.
proof fn lemma_report_lines_count(m: Map<ClientId, Account>, n: nat)
    requires
        n <= 65536,
    ensures
        clients_below(m, n as int).finite(),
        newlines(model::report_lines(m, n)) == clients_below(m, n as int).len(),
    decreases n,
{
    if n == 0 {
        assert(clients_below(m, 0) =~= Set::<ClientId>::empty());
    } else {
        let c = (n - 1) as nat;
        lemma_report_lines_count(m, c);
        let id = c as ClientId;
        assert(id as int == c);
        let prev = clients_below(m, c as int);
        assert(!prev.contains(id));
        if m.contains_key(id) {
            assert(clients_below(m, n as int) =~= prev.insert(id));
            lemma_line_one_newline(m[id]);
            lemma_newlines_add(model::report_lines(m, c), model::account_line(m[id]));
        } else {
            assert(clients_below(m, n as int) =~= prev);
            lemma_newlines_add(model::report_lines(m, c), Seq::<char>::empty());
        }
    }
}

/// The line of every client below `n` with an account occurs among the lines.
proof fn lemma_report_lines_occurs(m: Map<ClientId, Account>, n: nat, c: ClientId)
    requires
        n <= 65536,
        m.contains_key(c),
        (c as int) < n,
    ensures
        occurs(model::account_line(m[c]), model::report_lines(m, n)),
    decreases n,
{
    let k = (n - 1) as nat;
    let prev = model::report_lines(m, k);
    let line = model::account_line(m[c]);
    let id = k as ClientId;
    assert(id as int == k);
    let extra = if m.contains_key(id) {
        model::account_line(m[id])
    } else {
        Seq::<char>::empty()
    };
    let whole = model::report_lines(m, n);
    assert(whole == prev + extra);
    if (c as int) < k {
        lemma_report_lines_occurs(m, k, c);
        let i = choose|i: int|
            0 <= i && i + line.len() <= prev.len() && #[trigger] prev.subrange(i, i + line.len())
                == line;
        assert(whole.subrange(i, i + line.len()) =~= prev.subrange(i, i + line.len()));
    } else {
        assert(c == id);
        let i = prev.len() as int;
        assert(whole.subrange(i, i + line.len()) =~= line);
    }
}

/// The header holds exactly one line break, at its end.
proof fn lemma_header_one_newline()
    ensures
        newlines(model::report_header()) == 1,
{
    broadcast use vstd::string::group_string_axioms;

    let h = model::report_header();
    reveal_strlit("client,available,held,total,locked\n");
    assert(h.len() == 35);
    assert(h.last() == '\n');
    let body = h.drop_last();
    assert forall|i: int| 0 <= i < body.len() implies body[i] != '\n' by {
        assert(body[i] == h[i]);
    }
    lemma_no_newline(body);
}

/// The accounts report lists every account: the line of each account occurs in it, and
/// it holds one line (one line break) per account, besides the header.
pub proof fn lemma_report_lists_every_account(m: Map<ClientId, Account>)
    ensures
        forall|c: ClientId| #[trigger]
            m.contains_key(c) ==> occurs(model::account_line(m[c]), model::report(m)),
        m.dom().finite(),
        newlines(model::report(m)) == m.dom().len() + 1,
{
    let header = model::report_header();
    let lines = model::report_lines(m, 65536);
    assert forall|c: ClientId| #[trigger] m.contains_key(c) implies occurs(
        model::account_line(m[c]),
        model::report(m),
    ) by {
        lemma_report_lines_occurs(m, 65536, c);
        let line = model::account_line(m[c]);
        let i = choose|i: int|
            0 <= i && i + line.len() <= lines.len() && #[trigger] lines.subrange(i, i + line.len())
                == line;
        let j = header.len() + i;
        assert(model::report(m).subrange(j, j + line.len()) =~= lines.subrange(i, i + line.len()));
    }
    lemma_report_lines_count(m, 65536);
    assert(clients_below(m, 65536) =~= m.dom());
    lemma_header_one_newline();
    lemma_newlines_add(header, lines);
}

} // verus!
