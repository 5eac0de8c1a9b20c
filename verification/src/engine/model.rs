//! The mathematical model of the engine: its state as maps and sets, and the
//! transition that processing one transaction makes.

use vstd::prelude::*;

use crate::error::{PaymentError, ProcessingError};
use crate::storage::dispute_store;
use crate::text;
use crate::storage::DisputeStatus;
use crate::types::account;
use crate::types::amount;
use crate::types::transaction;
use crate::types::{
    Account, Amount, ClientId, MonetaryTx, MonetaryTxKind, Transaction, TransactionType, TxId,
};

verus! {

/// Non-fatal processing outcomes.
#[derive(Debug, Clone, Copy, PartialEq, Eq, Structural)]
pub enum ProcessingOutcome {
    Applied,
    Ignored(IgnoredReason),
}

/// Reasons for which a row is ignored without error.
#[derive(Debug, Clone, Copy, PartialEq, Eq, Structural)]
pub enum IgnoredReason {
    UnknownReference { tx_id: TxId },
    NonDepositReference { tx_id: TxId },
    DisputeAlreadyFinalized { tx_id: TxId },
    DisputeNotActive { tx_id: TxId },
}

/// The engine's state: accounts by client, stored monetary transactions, dispute
/// status by transaction, and the monetary transaction IDs already used.
#[verifier::ext_equal]
pub struct ProcessorView {
    pub accounts: Map<ClientId, Account>,
    pub txs: Map<TxId, MonetaryTx>,
    pub disputes: Map<TxId, DisputeStatus>,
    pub seen: Set<TxId>,
}

/// What processing a transaction yields.
pub type StepResult = Result<ProcessingOutcome, PaymentError>;

/// The state in which nothing has been processed.
pub open spec fn empty_view() -> ProcessorView {
    ProcessorView {
        accounts: Map::empty(),
        txs: Map::empty(),
        disputes: Map::empty(),
        seen: Set::empty(),
    }
}

/// Whether `client` has an account and that account is locked.
pub open spec fn is_locked_in(s: ProcessorView, client: ClientId) -> bool {
    s.accounts.contains_key(client) && s.accounts[client].locked
}

/// The account of `client`, or a fresh one where it has none yet.
pub open spec fn account_or_new(s: ProcessorView, client: ClientId) -> Account {
    if s.accounts.contains_key(client) {
        s.accounts[client]
    } else {
        account::spec_new_account(client)
    }
}

/// `s` with the account of `client` set to `a`.
pub open spec fn with_account(s: ProcessorView, client: ClientId, a: Account) -> ProcessorView {
    ProcessorView { accounts: s.accounts.insert(client, a), ..s }
}

/// `s` with `tx_id` recorded as used.
pub open spec fn with_seen(s: ProcessorView, tx_id: TxId) -> ProcessorView {
    ProcessorView { seen: s.seen.insert(tx_id), ..s }
}

/// `s` with the dispute on `tx_id` set to `st`.
pub open spec fn with_dispute(s: ProcessorView, tx_id: TxId, st: DisputeStatus) -> ProcessorView {
    ProcessorView { disputes: s.disputes.insert(tx_id, st), ..s }
}

/// `s` with the monetary transaction `t` stored under `tx_id`.
pub open spec fn with_tx(s: ProcessorView, tx_id: TxId, t: MonetaryTx) -> ProcessorView {
    ProcessorView { txs: s.txs.insert(tx_id, t), ..s }
}

/// A deposit of `amount` by `client` under `tx_id`.
///
/// The ID is reserved first (a used ID fails with `DuplicateTransaction`), then a locked
/// account fails with `AccountLocked`; otherwise the account (created where missing) is
/// credited, failing with `Overflow` where the balance would leave the `i64` range.
pub open spec fn spec_deposit(s: ProcessorView, client: ClientId, tx_id: TxId, amount: Amount) -> (
    ProcessorView,
    StepResult,
) {
    if s.seen.contains(tx_id) {
        (s, Err(PaymentError::Processing(ProcessingError::DuplicateTransaction { tx_id })))
    } else {
        let s1 = with_seen(s, tx_id);
        if is_locked_in(s1, client) {
            (s1, Err(PaymentError::Processing(ProcessingError::AccountLocked { client })))
        } else {
            let acc = account_or_new(s1, client);
            match amount::spec_add_checked(acc.available@, amount@) {
                Err(e) => (with_account(s1, client, acc), Err(PaymentError::Amount(e))),
                Ok(v) => (
                    with_tx(
                        with_account(s1, client, Account { available: v, ..acc }),
                        tx_id,
                        MonetaryTx { client_id: client, amount, kind: MonetaryTxKind::Deposit },
                    ),
                    Ok(ProcessingOutcome::Applied),
                ),
            }
        }
    }
}

/// A withdrawal of `amount` by `client` under `tx_id`.
///
/// As a deposit for the ID and the lock; then the account (created where missing) must
/// have at least `amount` available, else `InsufficientFunds`.
pub open spec fn spec_withdrawal(
    s: ProcessorView,
    client: ClientId,
    tx_id: TxId,
    amount: Amount,
) -> (ProcessorView, StepResult) {
    if s.seen.contains(tx_id) {
        (s, Err(PaymentError::Processing(ProcessingError::DuplicateTransaction { tx_id })))
    } else {
        let s1 = with_seen(s, tx_id);
        if is_locked_in(s1, client) {
            (s1, Err(PaymentError::Processing(ProcessingError::AccountLocked { client })))
        } else {
            let acc = account_or_new(s1, client);
            let s2 = with_account(s1, client, acc);
            if acc.available@ < amount@ {
                (
                    s2,
                    Err(
                        PaymentError::Processing(
                            ProcessingError::InsufficientFunds {
                                client,
                                available: acc.available,
                                requested: amount,
                            },
                        ),
                    ),
                )
            } else {
                match amount::spec_sub_checked(acc.available@, amount@) {
                    Err(e) => (s2, Err(PaymentError::Amount(e))),
                    Ok(v) => (
                        with_tx(
                            with_account(s1, client, Account { available: v, ..acc }),
                            tx_id,
                            MonetaryTx {
                                client_id: client,
                                amount,
                                kind: MonetaryTxKind::Withdrawal,
                            },
                        ),
                        Ok(ProcessingOutcome::Applied),
                    ),
                }
            }
        }
    }
}

/// The checks shared by dispute, resolve and chargeback of the transaction `tx.tx`:
/// `Some` of the result where processing stops there, `None` where it goes on.
///
/// An unknown transaction, or one that is not a deposit, is ignored; a locked owner
/// account fails with `AccountLocked`. Whoever sends the request, it acts on the
/// deposit's owner.
pub open spec fn reference_checks(s: ProcessorView, tx: Transaction) -> Option<StepResult> {
    let tx_id = tx.tx;
    if !s.txs.contains_key(tx_id) {
        Some(Ok(ProcessingOutcome::Ignored(IgnoredReason::UnknownReference { tx_id })))
    } else if s.txs[tx_id].kind != MonetaryTxKind::Deposit {
        Some(Ok(ProcessingOutcome::Ignored(IgnoredReason::NonDepositReference { tx_id })))
    } else if is_locked_in(s, s.txs[tx_id].client_id) {
        Some(
            Err(
                PaymentError::Processing(
                    ProcessingError::AccountLocked { client: s.txs[tx_id].client_id },
                ),
            ),
        )
    } else {
        None
    }
}

/// A dispute of the deposit `tx.tx`: once the shared reference checks pass, a
/// transaction that was ever disputed is ignored; a dispute sent by another client than
/// the deposit's owner fails with `ClientMismatch`; otherwise the dispute becomes
/// `Active` and the deposit's amount moves from available to held.
pub open spec fn spec_dispute(s: ProcessorView, tx: Transaction) -> (ProcessorView, StepResult) {
    let tx_id = tx.tx;
    match reference_checks(s, tx) {
        Some(r) => (s, r),
        None => if s.disputes.contains_key(tx_id) {
            (s, Ok(ProcessingOutcome::Ignored(IgnoredReason::DisputeAlreadyFinalized { tx_id })))
        } else if s.txs[tx_id].client_id != tx.client {
            (
                s,
                Err(
                    PaymentError::Processing(
                        ProcessingError::ClientMismatch {
                            tx_id,
                            owner: s.txs[tx_id].client_id,
                            requester: tx.client,
                        },
                    ),
                ),
            )
        } else {
            let d = s.txs[tx_id];
            let s1 = with_dispute(s, tx_id, DisputeStatus::Active);
            let acc = account_or_new(s1, d.client_id);
            match amount::spec_sub_checked(acc.available@, d.amount@) {
                Err(e) => (with_account(s1, d.client_id, acc), Err(PaymentError::Amount(e))),
                Ok(av) => {
                    let acc2 = Account { available: av, ..acc };
                    match amount::spec_add_checked(acc.held@, d.amount@) {
                        Err(e) => (
                            with_account(s1, d.client_id, acc2),
                            Err(PaymentError::Amount(e)),
                        ),
                        Ok(h) => (
                            with_account(s1, d.client_id, Account { held: h, ..acc2 }),
                            Ok(ProcessingOutcome::Applied),
                        ),
                    }
                },
            }
        },
    }
}

/// A resolve of the dispute on `tx.tx`: once the shared reference checks pass, only an
/// active dispute is resolved (else ignored); it becomes `Resolved` and the amount moves
/// from held back to available.
pub open spec fn spec_resolve(s: ProcessorView, tx: Transaction) -> (ProcessorView, StepResult) {
    let tx_id = tx.tx;
    match reference_checks(s, tx) {
        Some(r) => (s, r),
        None => if !dispute_store::spec_is_active(s.disputes, tx_id) {
            (s, Ok(ProcessingOutcome::Ignored(IgnoredReason::DisputeNotActive { tx_id })))
        } else {
            let d = s.txs[tx_id];
            let s1 = with_dispute(s, tx_id, DisputeStatus::Resolved);
            let acc = account_or_new(s1, d.client_id);
            match amount::spec_sub_checked(acc.held@, d.amount@) {
                Err(e) => (with_account(s1, d.client_id, acc), Err(PaymentError::Amount(e))),
                Ok(h) => {
                    let acc2 = Account { held: h, ..acc };
                    match amount::spec_add_checked(acc.available@, d.amount@) {
                        Err(e) => (
                            with_account(s1, d.client_id, acc2),
                            Err(PaymentError::Amount(e)),
                        ),
                        Ok(av) => (
                            with_account(s1, d.client_id, Account { available: av, ..acc2 }),
                            Ok(ProcessingOutcome::Applied),
                        ),
                    }
                },
            }
        },
    }
}

/// A chargeback of the dispute on `tx.tx`: once the shared reference checks pass, only
/// an active dispute is charged back (else ignored); it becomes `Chargedback`, the amount
/// leaves held and the account is locked.
pub open spec fn spec_chargeback(s: ProcessorView, tx: Transaction) -> (ProcessorView, StepResult) {
    let tx_id = tx.tx;
    match reference_checks(s, tx) {
        Some(r) => (s, r),
        None => if !dispute_store::spec_is_active(s.disputes, tx_id) {
            (s, Ok(ProcessingOutcome::Ignored(IgnoredReason::DisputeNotActive { tx_id })))
        } else {
            let d = s.txs[tx_id];
            let s1 = with_dispute(s, tx_id, DisputeStatus::Chargedback);
            let acc = account_or_new(s1, d.client_id);
            match amount::spec_sub_checked(acc.held@, d.amount@) {
                Err(e) => (with_account(s1, d.client_id, acc), Err(PaymentError::Amount(e))),
                Ok(h) => (
                    with_account(s1, d.client_id, Account { held: h, locked: true, ..acc }),
                    Ok(ProcessingOutcome::Applied),
                ),
            }
        },
    }
}

/// Processing one transaction: a transaction that fails validation changes nothing;
/// otherwise its type decides the transition.
pub open spec fn spec_step(s: ProcessorView, tx: Transaction) -> (ProcessorView, StepResult) {
    match transaction::spec_validate(tx) {
        Err(e) => (s, Err(e)),
        Ok(_) => match tx.tx_type {
            TransactionType::Deposit => spec_deposit(s, tx.client, tx.tx, tx.amount.unwrap()),
            TransactionType::Withdrawal => spec_withdrawal(s, tx.client, tx.tx, tx.amount.unwrap()),
            TransactionType::Dispute => spec_dispute(s, tx),
            TransactionType::Resolve => spec_resolve(s, tx),
            TransactionType::Chargeback => spec_chargeback(s, tx),
        },
    }
}


/// The header line of the accounts report.
pub open spec fn report_header() -> Seq<char> {
    "client,available,held,total,locked\n"@
}

/// The report line of an account: client, available, held, total and locked, separated
/// by commas, amounts with four decimal places.
pub open spec fn account_line(a: Account) -> Seq<char> {
    text::dec(a.client as nat) + seq![','] + amount::amount_text(a.available@) + seq![',']
        + amount::amount_text(a.held@) + seq![','] + amount::amount_text(
        account::spec_total(a),
    ) + seq![','] + (if a.locked {
        "true"@
    } else {
        "false"@
    }) + seq!['\n']
}

/// The report lines of the accounts of the clients below `n`, by ascending client ID.
pub open spec fn report_lines(accounts: Map<ClientId, Account>, n: nat) -> Seq<char>
    decreases n,
{
    if n == 0 {
        Seq::empty()
    } else {
        let c = (n - 1) as nat;
        report_lines(accounts, c) + if accounts.contains_key(c as ClientId) {
            account_line(accounts[c as ClientId])
        } else {
            Seq::empty()
        }
    }
}

/// The accounts report: the header, then one line per account by ascending client ID.
pub open spec fn report(accounts: Map<ClientId, Account>) -> Seq<char> {
    report_header() + report_lines(accounts, 65536)
}

} // verus!
