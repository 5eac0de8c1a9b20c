use smaugs_treasure::engine::{IgnoredReason, PaymentProcessor, ProcessingOutcome};
use smaugs_treasure::error::{AmountError, ParseError, PaymentError, ProcessingError};
use smaugs_treasure::types::{Amount, Transaction, TransactionType};

fn report(processor: PaymentProcessor) -> String {
    let mut buffer = Vec::new();
    processor.finalize_to_writer(&mut buffer).unwrap();
    String::from_utf8(buffer).unwrap()
}

fn amt(raw: i64) -> Amount {
    Amount::from_raw(raw)
}

#[test]
fn report_is_exact_and_sorted_by_client() {
    let mut p = PaymentProcessor::new();
    p.process_transaction(Transaction::deposit(3, 1, amt(30_000))).unwrap();
    p.process_transaction(Transaction::deposit(1, 2, amt(15_000))).unwrap();
    p.process_transaction(Transaction::deposit(2, 3, amt(12_345))).unwrap();
    p.process_transaction(Transaction::dispute(2, 3)).unwrap();
    assert_eq!(
        report(p),
        "client,available,held,total,locked\n\
         1,1.5000,0.0000,1.5000,false\n\
         2,0.0000,1.2345,1.2345,false\n\
         3,3.0000,0.0000,3.0000,false\n"
    );
}

#[test]
fn report_appends_to_writer() {
    let p = PaymentProcessor::new();
    let mut buffer = b"x".to_vec();
    p.finalize_to_writer(&mut buffer).unwrap();
    assert_eq!(buffer, b"xclient,available,held,total,locked\n".to_vec());
}

#[test]
fn scenario_multiple_disputes_same_transaction() {
    let mut p = PaymentProcessor::new();
    p.process_transaction(Transaction::deposit(1, 1, amt(100_000))).unwrap();
    assert_eq!(p.process_transaction(Transaction::dispute(1, 1)).unwrap(), ProcessingOutcome::Applied);
    assert_eq!(
        p.process_transaction(Transaction::dispute(1, 1)).unwrap(),
        ProcessingOutcome::Ignored(IgnoredReason::DisputeAlreadyFinalized { tx_id: 1 })
    );
    assert_eq!(report(p), "client,available,held,total,locked\n1,0.0000,10.0000,10.0000,false\n");
}

#[test]
fn scenario_chargeback_without_dispute_is_ignored() {
    let mut p = PaymentProcessor::new();
    p.process_transaction(Transaction::deposit(1, 1, amt(1_000_000))).unwrap();
    assert_eq!(
        p.process_transaction(Transaction::chargeback(1, 1)).unwrap(),
        ProcessingOutcome::Ignored(IgnoredReason::DisputeNotActive { tx_id: 1 })
    );
    assert_eq!(report(p), "client,available,held,total,locked\n1,100.0000,0.0000,100.0000,false\n");
}

#[test]
fn scenario_chargeback_after_resolve_is_ignored() {
    let mut p = PaymentProcessor::new();
    p.process_transaction(Transaction::deposit(1, 1, amt(1_000_000))).unwrap();
    p.process_transaction(Transaction::dispute(1, 1)).unwrap();
    p.process_transaction(Transaction::resolve(1, 1)).unwrap();
    assert_eq!(
        p.process_transaction(Transaction::chargeback(1, 1)).unwrap(),
        ProcessingOutcome::Ignored(IgnoredReason::DisputeNotActive { tx_id: 1 })
    );
    // A resolved dispute cannot be opened again either.
    assert_eq!(
        p.process_transaction(Transaction::dispute(1, 1)).unwrap(),
        ProcessingOutcome::Ignored(IgnoredReason::DisputeAlreadyFinalized { tx_id: 1 })
    );
    assert_eq!(report(p), "client,available,held,total,locked\n1,100.0000,0.0000,100.0000,false\n");
}

#[test]
fn scenario_dispute_of_withdrawal_is_ignored() {
    let mut p = PaymentProcessor::new();
    p.process_transaction(Transaction::deposit(1, 1, amt(1_000_000))).unwrap();
    p.process_transaction(Transaction::withdrawal(1, 2, amt(500_000))).unwrap();
    assert_eq!(
        p.process_transaction(Transaction::dispute(1, 2)).unwrap(),
        ProcessingOutcome::Ignored(IgnoredReason::NonDepositReference { tx_id: 2 })
    );
    assert_eq!(report(p), "client,available,held,total,locked\n1,50.0000,0.0000,50.0000,false\n");
}

#[test]
fn scenario_dispute_after_withdrawal_allows_negative() {
    let mut p = PaymentProcessor::new();
    p.process_transaction(Transaction::deposit(1, 1, amt(1_000_000))).unwrap();
    p.process_transaction(Transaction::withdrawal(1, 2, amt(800_000))).unwrap();
    p.process_transaction(Transaction::dispute(1, 1)).unwrap();
    assert_eq!(report(p), "client,available,held,total,locked\n1,-80.0000,100.0000,20.0000,false\n");
}

#[test]
fn scenario_insufficient_funds_continues() {
    let mut p = PaymentProcessor::new();
    p.process_transaction(Transaction::deposit(1, 1, amt(100_000))).unwrap();
    let r = p.process_transaction(Transaction::withdrawal(1, 2, amt(200_000)));
    match r {
        Err(PaymentError::Processing(ProcessingError::InsufficientFunds { client, available, requested })) => {
            assert_eq!(client, 1);
            assert_eq!(available, amt(100_000));
            assert_eq!(requested, amt(200_000));
        }
        other => panic!("unexpected {:?}", other),
    }
    p.process_transaction(Transaction::deposit(1, 3, amt(50_000))).unwrap();
    assert_eq!(report(p), "client,available,held,total,locked\n1,15.0000,0.0000,15.0000,false\n");
}

#[test]
fn failed_withdrawal_of_new_client_opens_empty_account() {
    let mut p = PaymentProcessor::new();
    assert!(p.process_transaction(Transaction::withdrawal(7, 1, amt(1))).is_err());
    assert_eq!(report(p), "client,available,held,total,locked\n7,0.0000,0.0000,0.0000,false\n");
}

#[test]
fn locked_account_is_frozen() {
    let mut p = PaymentProcessor::new();
    p.process_transaction(Transaction::deposit(1, 1, amt(10_000))).unwrap();
    p.process_transaction(Transaction::deposit(1, 2, amt(20_000))).unwrap();
    p.process_transaction(Transaction::dispute(1, 1)).unwrap();
    p.process_transaction(Transaction::chargeback(1, 1)).unwrap();
    match p.process_transaction(Transaction::withdrawal(1, 3, amt(1))) {
        Err(PaymentError::Processing(ProcessingError::AccountLocked { client })) => assert_eq!(client, 1),
        other => panic!("unexpected {:?}", other),
    }
    match p.process_transaction(Transaction::dispute(1, 2)) {
        Err(PaymentError::Processing(ProcessingError::AccountLocked { client })) => assert_eq!(client, 1),
        other => panic!("unexpected {:?}", other),
    }
    assert_eq!(report(p), "client,available,held,total,locked\n1,2.0000,0.0000,2.0000,true\n");
}

#[test]
fn transaction_ids_are_unique_across_clients() {
    let mut p = PaymentProcessor::new();
    p.process_transaction(Transaction::deposit(1, 5, amt(10_000))).unwrap();
    match p.process_transaction(Transaction::deposit(2, 5, amt(10_000))) {
        Err(PaymentError::Processing(ProcessingError::DuplicateTransaction { tx_id })) => assert_eq!(tx_id, 5),
        other => panic!("unexpected {:?}", other),
    }
    // A refused withdrawal still uses up its ID.
    assert!(p.process_transaction(Transaction::withdrawal(1, 6, amt(99_999))).is_err());
    assert!(p.process_transaction(Transaction::deposit(1, 6, amt(1))).is_err());
    assert_eq!(report(p), "client,available,held,total,locked\n1,1.0000,0.0000,1.0000,false\n");
}

#[test]
fn client_mismatch_names_owner_and_requester() {
    let mut p = PaymentProcessor::new();
    p.process_transaction(Transaction::deposit(1, 1, amt(10_000))).unwrap();
    match p.process_transaction(Transaction::dispute(2, 1)) {
        Err(PaymentError::Processing(ProcessingError::ClientMismatch { tx_id, owner, requester })) => {
            assert_eq!((tx_id, owner, requester), (1, 1, 2));
        }
        other => panic!("unexpected {:?}", other),
    }
    assert_eq!(report(p), "client,available,held,total,locked\n1,1.0000,0.0000,1.0000,false\n");
}

#[test]
fn dispute_by_other_client_of_disputed_deposit_is_ignored() {
    let mut p = PaymentProcessor::new();
    p.process_transaction(Transaction::deposit(1, 1, amt(10_000))).unwrap();
    p.process_transaction(Transaction::dispute(1, 1)).unwrap();
    assert_eq!(
        p.process_transaction(Transaction::dispute(2, 1)).unwrap(),
        ProcessingOutcome::Ignored(IgnoredReason::DisputeAlreadyFinalized { tx_id: 1 })
    );
}

#[test]
fn resolve_and_chargeback_act_on_the_owner_whoever_sends_them() {
    let mut p = PaymentProcessor::new();
    p.process_transaction(Transaction::deposit(1, 1, amt(10_000))).unwrap();
    p.process_transaction(Transaction::deposit(1, 2, amt(20_000))).unwrap();
    p.process_transaction(Transaction::dispute(1, 1)).unwrap();
    p.process_transaction(Transaction::dispute(1, 2)).unwrap();
    assert_eq!(p.process_transaction(Transaction::resolve(2, 1)).unwrap(), ProcessingOutcome::Applied);
    assert_eq!(p.process_transaction(Transaction::chargeback(3, 2)).unwrap(), ProcessingOutcome::Applied);
    // The owner's account is locked, so a later resolve by anyone fails with AccountLocked.
    match p.process_transaction(Transaction::resolve(2, 2)) {
        Err(PaymentError::Processing(ProcessingError::AccountLocked { client })) => assert_eq!(client, 1),
        other => panic!("unexpected {:?}", other),
    }
    assert_eq!(report(p), "client,available,held,total,locked\n1,1.0000,0.0000,1.0000,true\n");
}

#[test]
fn dispute_then_resolve_restores_account() {
    let mut p = PaymentProcessor::new();
    p.process_transaction(Transaction::deposit(4, 9, amt(77_777))).unwrap();
    p.process_transaction(Transaction::withdrawal(4, 10, amt(7_777))).unwrap();
    p.process_transaction(Transaction::dispute(4, 9)).unwrap();
    p.process_transaction(Transaction::resolve(4, 9)).unwrap();
    assert_eq!(
        p.process_transaction(Transaction::dispute(4, 9)).unwrap(),
        ProcessingOutcome::Ignored(IgnoredReason::DisputeAlreadyFinalized { tx_id: 9 })
    );
    assert_eq!(report(p), "client,available,held,total,locked\n4,7.0000,0.0000,7.0000,false\n");
}

#[test]
fn dispute_kinds_with_an_amount_are_refused() {
    let mut p = PaymentProcessor::new();
    p.process_transaction(Transaction::deposit(1, 1, amt(10_000))).unwrap();
    for kind in [TransactionType::Dispute, TransactionType::Resolve, TransactionType::Chargeback] {
        match p.process_transaction(Transaction::new(kind, 1, 1, Some(amt(10_000)))) {
            Err(PaymentError::Parse(ParseError::UnexpectedAmount(t))) => assert_eq!(t, 1),
            other => panic!("unexpected {:?}", other),
        }
    }
    assert_eq!(report(p), "client,available,held,total,locked\n1,1.0000,0.0000,1.0000,false\n");
}

#[test]
fn held_is_sum_of_active_disputes() {
    let mut p = PaymentProcessor::new();
    p.process_transaction(Transaction::deposit(1, 1, amt(10_000))).unwrap();
    p.process_transaction(Transaction::deposit(1, 2, amt(25_000))).unwrap();
    p.process_transaction(Transaction::dispute(1, 1)).unwrap();
    p.process_transaction(Transaction::dispute(1, 2)).unwrap();
    p.process_transaction(Transaction::resolve(1, 1)).unwrap();
    assert_eq!(report(p), "client,available,held,total,locked\n1,1.0000,2.5000,3.5000,false\n");
}

#[test]
fn ignored_and_invalid_rows_change_nothing() {
    let mut p = PaymentProcessor::new();
    p.process_transaction(Transaction::deposit(1, 1, amt(10_000))).unwrap();
    assert_eq!(
        p.process_transaction(Transaction::resolve(1, 42)).unwrap(),
        ProcessingOutcome::Ignored(IgnoredReason::UnknownReference { tx_id: 42 })
    );
    match p.process_transaction(Transaction::new(TransactionType::Deposit, 2, 2, None)) {
        Err(PaymentError::Parse(ParseError::MissingAmount(t))) => assert_eq!(t, 2),
        other => panic!("unexpected {:?}", other),
    }
    match p.process_transaction(Transaction::withdrawal(2, 3, amt(-1))) {
        Err(PaymentError::Parse(ParseError::NegativeAmount(t))) => assert_eq!(t, 3),
        other => panic!("unexpected {:?}", other),
    }
    // The rejected IDs were not used up.
    p.process_transaction(Transaction::deposit(1, 2, amt(1))).unwrap();
    assert_eq!(report(p), "client,available,held,total,locked\n1,1.0001,0.0000,1.0001,false\n");
}

#[test]
fn deposit_overflow_is_refused() {
    let mut p = PaymentProcessor::new();
    p.process_transaction(Transaction::deposit(1, 1, amt(i64::MAX))).unwrap();
    match p.process_transaction(Transaction::deposit(1, 2, amt(1))) {
        Err(PaymentError::Amount(AmountError::Overflow)) => {}
        other => panic!("unexpected {:?}", other),
    }
}

#[test]
fn dispute_overflow_leaves_partial_update() {
    let mut p = PaymentProcessor::new();
    p.process_transaction(Transaction::deposit(1, 1, amt(i64::MAX))).unwrap();
    p.process_transaction(Transaction::dispute(1, 1)).unwrap();
    p.process_transaction(Transaction::deposit(1, 2, amt(i64::MAX))).unwrap();
    match p.process_transaction(Transaction::dispute(1, 2)) {
        Err(PaymentError::Amount(AmountError::Overflow)) => {}
        other => panic!("unexpected {:?}", other),
    }
    // Available was already reduced when adding to held overflowed; the total does not fit.
    assert_eq!(
        report(p),
        "client,available,held,total,locked\n1,0.0000,922337203685477.5807,922337203685477.5807,false\n"
    );
}

#[test]
fn default_processor_is_empty() {
    let p = PaymentProcessor::default();
    assert_eq!(report(p), "client,available,held,total,locked\n");
}
