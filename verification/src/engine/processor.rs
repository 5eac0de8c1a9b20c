//! The payment processor: applies transactions to accounts.

use std::collections::HashMap;
use std::collections::HashSet;
use vstd::prelude::*;

use crate::engine::model;
use crate::engine::model::{IgnoredReason, ProcessingOutcome, ProcessorView};
use crate::error::{ParseError, PaymentError, ProcessingError};
use crate::storage::{
    begin_dispute, chargeback_dispute, resolve_dispute, AccountState, DisputeStore, TxStore,
};
use crate::text::{push_char, push_decimal};
use crate::types::{Account, Amount, MonetaryTx, MonetaryTxKind, Transaction, TransactionType, TxId};

verus! {

broadcast use vstd::std_specs::hash::group_hash_axioms;

/// The payment processor: accounts, stored monetary transactions, disputes, and the
/// monetary transaction IDs already used.
pub struct PaymentProcessor {
    state: AccountState,
    tx_store: TxStore,
    dispute_store: DisputeStore,
    seen_monetary_txs: HashSet<TxId>,
}

impl View for PaymentProcessor {
    type V = ProcessorView;

    closed spec fn view(&self) -> ProcessorView {
        ProcessorView {
            accounts: self.state@,
            txs: self.tx_store@,
            disputes: self.dispute_store@,
            seen: self.seen_monetary_txs@,
        }
    }
}

impl Default for PaymentProcessor {
    fn default() -> (p: Self)
        ensures
            p@ == model::empty_view(),
    {
        Self::new()
    }
}

impl PaymentProcessor {
    /// Creates a processor with no accounts and no transactions.
    pub fn new() -> (p: Self)
        ensures
            p@ == model::empty_view(),
    {
        PaymentProcessor {
            state: HashMap::new(),
            tx_store: HashMap::new(),
            dispute_store: HashMap::new(),
            seen_monetary_txs: HashSet::new(),
        }
    }

    /// Makes sure `client` has an account (a fresh one where missing) and returns it.
    fn get_or_create_account(&mut self, client: u16) -> (a: Account)
        ensures
            a == model::account_or_new(old(self)@, client),
            final(self)@ == model::with_account(old(self)@, client, a),
    {
        let a = match self.state.get(&client) {
            Some(acc) => *acc,
            None => Account::new(client),
        };
        self.state.insert(client, a);
        a
    }

    /// Stores `a` as the account of `client`.
    fn set_account(&mut self, client: u16, a: Account)
        ensures
            final(self)@ == model::with_account(old(self)@, client, a),
    {
        self.state.insert(client, a);
    }

    /// Fails with `AccountLocked` where the account of `client` exists and is locked.
    fn ensure_account_not_locked(&self, client: u16) -> (r: Result<(), PaymentError>)
        ensures
            r == if model::is_locked_in(self@, client) {
                Err(PaymentError::Processing(ProcessingError::AccountLocked { client }))
            } else {
                Ok(())
            },
    {
        match self.state.get(&client) {
            Some(acc) => {
                if acc.is_locked() {
                    return Err(PaymentError::Processing(ProcessingError::AccountLocked { client }));
                }
                Ok(())
            },
            None => Ok(()),
        }
    }

    /// The amount of a transaction, or `MissingAmount` where it has none.
    fn validated_amount(tx: &Transaction) -> (r: Result<Amount, PaymentError>)
        ensures
            r == match tx.amount {
                Some(a) => Ok(a),
                None => Err(PaymentError::Parse(ParseError::MissingAmount(tx.tx))),
            },
    {
        match tx.amount {
            Some(a) => Ok(a),
            None => Err(PaymentError::Parse(ParseError::MissingAmount(tx.tx))),
        }
    }

    /// Reserves a monetary transaction ID; an ID already used fails with `DuplicateTransaction`.
    fn reserve_monetary_tx_id(&mut self, tx_id: TxId) -> (r: Result<(), PaymentError>)
        ensures
            r == if old(self)@.seen.contains(tx_id) {
                Err::<(), PaymentError>(PaymentError::Processing(ProcessingError::DuplicateTransaction { tx_id }))
            } else {
                Ok(())
            },
            final(self)@ == model::with_seen(old(self)@, tx_id),
    {
        if !self.seen_monetary_txs.insert(tx_id) {
            return Err(PaymentError::Processing(ProcessingError::DuplicateTransaction { tx_id }));
        }
        Ok(())
    }

    /// The stored monetary transaction `tx_id`, if any.
    fn get_referenced_tx(&self, tx_id: TxId) -> (r: Option<MonetaryTx>)
        ensures
            r == if self@.txs.contains_key(tx_id) {
                Some(self@.txs[tx_id])
            } else {
                None::<MonetaryTx>
            },
    {
        match self.tx_store.get(&tx_id) {
            Some(t) => Some(*t),
            None => None,
        }
    }

    /// Applies a deposit.
    fn handle_deposit(&mut self, tx: Transaction) -> (r: Result<ProcessingOutcome, PaymentError>)
        requires
            tx.amount is Some,
        ensures
            final(self)@ == model::spec_deposit(old(self)@, tx.client, tx.tx, tx.amount.unwrap()).0,
            r == model::spec_deposit(old(self)@, tx.client, tx.tx, tx.amount.unwrap()).1,
    {
        let client = tx.client;
        let tx_id = tx.tx;
        let amount = Self::validated_amount(&tx)?;
        self.reserve_monetary_tx_id(tx_id)?;
        self.ensure_account_not_locked(client)?;
        let mut account = self.get_or_create_account(client);
        match account.available.add_checked(amount) {
            Ok(v) => account.available = v,
            Err(e) => return Err(PaymentError::Amount(e)),
        }
        self.set_account(client, account);
        self.tx_store.insert(
            tx_id,
            MonetaryTx { client_id: client, amount, kind: MonetaryTxKind::Deposit },
        );
        Ok(ProcessingOutcome::Applied)
    }

    /// Applies a withdrawal.
    fn handle_withdrawal(&mut self, tx: Transaction) -> (r: Result<ProcessingOutcome, PaymentError>)
        requires
            tx.amount is Some,
        ensures
            final(self)@ == model::spec_withdrawal(old(self)@, tx.client, tx.tx, tx.amount.unwrap()).0,
            r == model::spec_withdrawal(old(self)@, tx.client, tx.tx, tx.amount.unwrap()).1,
    {
        let client = tx.client;
        let tx_id = tx.tx;
        let amount = Self::validated_amount(&tx)?;
        self.reserve_monetary_tx_id(tx_id)?;
        self.ensure_account_not_locked(client)?;
        let mut account = self.get_or_create_account(client);
        if !account.has_sufficient_funds(amount) {
            return Err(
                PaymentError::Processing(
                    ProcessingError::insufficient_funds(client, account.available, amount),
                ),
            );
        }
        match account.available.sub_checked(amount) {
            Ok(v) => account.available = v,
            Err(e) => return Err(PaymentError::Amount(e)),
        }
        self.set_account(client, account);
        self.tx_store.insert(
            tx_id,
            MonetaryTx { client_id: client, amount, kind: MonetaryTxKind::Withdrawal },
        );
        Ok(ProcessingOutcome::Applied)
    }

    /// The checks shared by dispute, resolve and chargeback; `Ok` of the referenced
    /// deposit where processing goes on, `Err` of the result where it stops.
    fn check_reference(&self, tx: &Transaction) -> (r: Result<MonetaryTx, Result<ProcessingOutcome, PaymentError>>)
        ensures
            match model::reference_checks(self@, *tx) {
                Some(res) => r == Err::<MonetaryTx, _>(res),
                None => r == Ok::<_, Result<ProcessingOutcome, PaymentError>>(self@.txs[tx.tx]),
            },
    {
        let tx_id = tx.tx;
        let referenced_tx = match self.get_referenced_tx(tx_id) {
            Some(t) => t,
            None => return Err(Ok(ProcessingOutcome::Ignored(IgnoredReason::UnknownReference { tx_id }))),
        };
        if !referenced_tx.is_deposit() {
            return Err(Ok(ProcessingOutcome::Ignored(IgnoredReason::NonDepositReference { tx_id })));
        }
        match self.ensure_account_not_locked(referenced_tx.client_id) {
            Ok(()) => {},
            Err(e) => return Err(Err(e)),
        }
        Ok(referenced_tx)
    }

    /// Applies a dispute.
    fn handle_dispute(&mut self, tx: Transaction) -> (r: Result<ProcessingOutcome, PaymentError>)
        ensures
            final(self)@ == model::spec_dispute(old(self)@, tx).0,
            r == model::spec_dispute(old(self)@, tx).1,
    {
        let tx_id = tx.tx;
        let referenced_tx = match self.check_reference(&tx) {
            Ok(t) => t,
            Err(res) => return res,
        };
        if self.dispute_store.contains_key(&tx_id) {
            return Ok(ProcessingOutcome::Ignored(IgnoredReason::DisputeAlreadyFinalized { tx_id }));
        }
        if referenced_tx.client_id != tx.client {
            return Err(
                PaymentError::Processing(
                    ProcessingError::ClientMismatch {
                        tx_id,
                        owner: referenced_tx.client_id,
                        requester: tx.client,
                    },
                ),
            );
        }
        if !begin_dispute(&mut self.dispute_store, tx_id) {
            return Ok(ProcessingOutcome::Ignored(IgnoredReason::DisputeAlreadyFinalized { tx_id }));
        }
        let owner = referenced_tx.client_id;
        let mut account = self.get_or_create_account(owner);
        match account.available.sub_checked(referenced_tx.amount) {
            Ok(v) => account.available = v,
            Err(e) => return Err(PaymentError::Amount(e)),
        }
        self.set_account(owner, account);
        match account.held.add_checked(referenced_tx.amount) {
            Ok(v) => account.held = v,
            Err(e) => return Err(PaymentError::Amount(e)),
        }
        self.set_account(owner, account);
        Ok(ProcessingOutcome::Applied)
    }

    /// Applies a resolve.
    fn handle_resolve(&mut self, tx: Transaction) -> (r: Result<ProcessingOutcome, PaymentError>)
        ensures
            final(self)@ == model::spec_resolve(old(self)@, tx).0,
            r == model::spec_resolve(old(self)@, tx).1,
    {
        let tx_id = tx.tx;
        let referenced_tx = match self.check_reference(&tx) {
            Ok(t) => t,
            Err(res) => return res,
        };
        if !resolve_dispute(&mut self.dispute_store, tx_id) {
            return Ok(ProcessingOutcome::Ignored(IgnoredReason::DisputeNotActive { tx_id }));
        }
        let owner = referenced_tx.client_id;
        let mut account = self.get_or_create_account(owner);
        match account.held.sub_checked(referenced_tx.amount) {
            Ok(v) => account.held = v,
            Err(e) => return Err(PaymentError::Amount(e)),
        }
        self.set_account(owner, account);
        match account.available.add_checked(referenced_tx.amount) {
            Ok(v) => account.available = v,
            Err(e) => return Err(PaymentError::Amount(e)),
        }
        self.set_account(owner, account);
        Ok(ProcessingOutcome::Applied)
    }

    /// Applies a chargeback.
    fn handle_chargeback(&mut self, tx: Transaction) -> (r: Result<ProcessingOutcome, PaymentError>)
        ensures
            final(self)@ == model::spec_chargeback(old(self)@, tx).0,
            r == model::spec_chargeback(old(self)@, tx).1,
    {
        let tx_id = tx.tx;
        let referenced_tx = match self.check_reference(&tx) {
            Ok(t) => t,
            Err(res) => return res,
        };
        if !chargeback_dispute(&mut self.dispute_store, tx_id) {
            return Ok(ProcessingOutcome::Ignored(IgnoredReason::DisputeNotActive { tx_id }));
        }
        let owner = referenced_tx.client_id;
        let mut account = self.get_or_create_account(owner);
        match account.held.sub_checked(referenced_tx.amount) {
            Ok(v) => account.held = v,
            Err(e) => return Err(PaymentError::Amount(e)),
        }
        account.lock();
        self.set_account(owner, account);
        Ok(ProcessingOutcome::Applied)
    }

    /// Processes one transaction: validates it, then applies it according to its type.
    pub fn process_transaction(&mut self, tx: Transaction) -> (r: Result<ProcessingOutcome, PaymentError>)
        ensures
            final(self)@ == model::spec_step(old(self)@, tx).0,
            r == model::spec_step(old(self)@, tx).1,
    {
        tx.validate()?;
        match tx.tx_type {
            TransactionType::Deposit => self.handle_deposit(tx),
            TransactionType::Withdrawal => self.handle_withdrawal(tx),
            TransactionType::Dispute => self.handle_dispute(tx),
            TransactionType::Resolve => self.handle_resolve(tx),
            TransactionType::Chargeback => self.handle_chargeback(tx),
        }
    }
}


impl PaymentProcessor {
    /// Appends the report line of `a` to `out`.
    fn push_account_line(out: &mut String, a: &Account)
        ensures
            final(out)@ == old(out)@ + model::account_line(*a),
    {
        push_decimal(out, a.client as u64);
        push_char(out, ',');
        out.append(a.available.to_string().as_str());
        push_char(out, ',');
        out.append(a.held.to_string().as_str());
        push_char(out, ',');
        out.append(a.total().to_string().as_str());
        push_char(out, ',');
        if a.locked {
            out.append("true");
        } else {
            out.append("false");
        }
        push_char(out, '\n');
        assert(final(out)@ =~= old(out)@ + model::account_line(*a));
    }

    /// The accounts report as text.
    fn report_text(&self) -> (out: String)
        ensures
            out@ == model::report(self@.accounts),
    {
        let mut out = "client,available,held,total,locked\n".to_string();
        let mut c: u32 = 0;
        while c < 65536
            invariant
                c <= 65536,
                out@ == model::report_header() + model::report_lines(self@.accounts, c as nat),
            decreases 65536 - c,
        {
            let id = c as u16;
            match self.state.get(&id) {
                Some(a) => {
                    Self::push_account_line(&mut out, a);
                },
                None => {},
            }
            assert(out@ =~= model::report_header() + model::report_lines(
                self@.accounts,
                (c + 1) as nat,
            ));
            c = c + 1;
        }
        out
    }

    /// Writes the accounts report (UTF-8) at the end of `writer`: the header line, then one
    /// line per account by ascending client ID.
    pub fn finalize_to_writer(self, writer: &mut Vec<u8>) -> (r: Result<(), PaymentError>)
        ensures
            r is Ok,
            final(writer)@ == old(writer)@ + vstd::utf8::encode_utf8(model::report(self@.accounts)),
    {
        let out = self.report_text();
        let bytes = out.as_str().as_bytes();
        let mut i: usize = 0;
        while i < bytes.len()
            invariant
                i <= bytes@.len(),
                bytes@ == vstd::utf8::encode_utf8(model::report(self@.accounts)),
                writer@ == old(writer)@ + bytes@.take(i as int),
            decreases bytes@.len() - i,
        {
            writer.push(bytes[i]);
            assert(bytes@.take(i + 1) =~= bytes@.take(i as int).push(bytes@[i as int]));
            i = i + 1;
        }
        assert(bytes@.take(bytes@.len() as int) =~= bytes@);
        Ok(())
    }
}

} // verus!
