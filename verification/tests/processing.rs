use ledger::account::Account;
use ledger::processor::{process, process_tx};
use ledger::records::{parse_kind, ApplyOutcome, ProcessingError, Rejection, Transaction, TxKind};
use ledger::store::{History, Ledger};

fn record(kind: &str, client: u16, tx: u32, amount: Option<i64>) -> Transaction {
    Transaction { kind: kind.to_string(), client, tx, amount }
}

fn assert_account(a: Account, available: i64, held: i64, total: i64, locked: bool) {
    assert_eq!(a.available, available);
    assert_eq!(a.held, held);
    assert_eq!(a.total, total);
    assert_eq!(a.locked, locked);
}

// An end-to-end scenario across two clients: amounts count
// ten-thousandths, so a deposit of 1.0000001 units arrives normalized
// to 1.0000 = 10000.
#[test]
fn test_parse() {
    let records = vec![
        record("deposit", 1, 1, Some(10000)),
        record("deposit", 2, 2, Some(20000)),
        record("deposit", 1, 3, Some(5000)),
        record("deposit", 1, 4, Some(20000)),
        record("withdrawal", 1, 5, Some(15000)),
        record("withdrawal", 2, 6, Some(30000)),
        record("dispute", 1, 1, None),
        record("resolve", 1, 1, None),
        record("dispute", 1, 3, None),
        record("dispute", 1, 1, None),
        record("chargeback", 1, 1, None),
    ];
    let ledger = process(&records).unwrap();
    assert_eq!(ledger.len(), 2);
    let clnt1 = ledger.get(1).unwrap();
    assert_eq!(clnt1.total, 10000);
    assert_eq!(clnt1.available, 5000);
    assert_eq!(clnt1.held, 5000);
    assert_eq!(clnt1.locked, true);
    let clnt2 = ledger.get(2).unwrap();
    assert_eq!(clnt2.total, 20000);
    assert_eq!(clnt2.available, 20000);
    assert_eq!(clnt2.held, 0);
    assert_eq!(clnt2.locked, false);
}

#[test]
fn test_parse_kind_tags() {
    assert_eq!(parse_kind(&"deposit".to_string()), Some(TxKind::Deposit));
    assert_eq!(parse_kind(&"withdrawal".to_string()), Some(TxKind::Withdrawal));
    assert_eq!(parse_kind(&"dispute".to_string()), Some(TxKind::Dispute));
    assert_eq!(parse_kind(&"resolve".to_string()), Some(TxKind::Resolve));
    assert_eq!(parse_kind(&"chargeback".to_string()), Some(TxKind::Chargeback));
    assert_eq!(parse_kind(&"Deposit".to_string()), None);
    assert_eq!(parse_kind(&"transfer".to_string()), None);
    assert_eq!(parse_kind(&"".to_string()), None);
}

#[test]
fn test_deposit_missing_amount_is_fatal() {
    let records = vec![record("deposit", 1, 1, None)];
    assert_eq!(process(&records).err(), Some(ProcessingError::MissingAmount));
}

#[test]
fn test_withdrawal_missing_amount_is_fatal() {
    let records = vec![
        record("deposit", 1, 1, Some(10000)),
        record("withdrawal", 1, 2, None),
    ];
    assert_eq!(process(&records).err(), Some(ProcessingError::MissingAmount));
}

#[test]
fn test_unknown_kind_aborts_run() {
    let records = vec![
        record("deposit", 1, 1, Some(10000)),
        record("transfer", 1, 2, Some(10000)),
        record("deposit", 1, 3, Some(10000)),
    ];
    assert_eq!(process(&records).err(), Some(ProcessingError::UnknownTransactionKind));
}

#[test]
fn test_withdrawal_insufficient_available() {
    let mut l = Ledger::new();
    let mut h = History::new();
    let r1 = process_tx(&mut l, &mut h, &record("deposit", 1, 1, Some(10000)));
    assert_eq!(r1, Ok(ApplyOutcome::Applied));
    let r2 = process_tx(&mut l, &mut h, &record("withdrawal", 1, 2, Some(10001)));
    assert_eq!(r2, Ok(ApplyOutcome::Rejected(Rejection::InsufficientAvailable)));
    assert_account(l.get(1).unwrap(), 10000, 0, 10000, false);
}

#[test]
fn test_locked_account_blocks_deposit_and_withdrawal() {
    let mut l = Ledger::new();
    let mut h = History::new();
    process_tx(&mut l, &mut h, &record("deposit", 1, 1, Some(50000))).unwrap();
    process_tx(&mut l, &mut h, &record("dispute", 1, 1, None)).unwrap();
    process_tx(&mut l, &mut h, &record("chargeback", 1, 1, None)).unwrap();
    assert_account(l.get(1).unwrap(), 0, 0, 0, true);
    let rd = process_tx(&mut l, &mut h, &record("deposit", 1, 2, Some(10000)));
    assert_eq!(rd, Ok(ApplyOutcome::Rejected(Rejection::LockedAccount)));
    let rw = process_tx(&mut l, &mut h, &record("withdrawal", 1, 3, Some(10000)));
    assert_eq!(rw, Ok(ApplyOutcome::Rejected(Rejection::LockedAccount)));
    assert_account(l.get(1).unwrap(), 0, 0, 0, true);
}

#[test]
fn test_dispute_unknown_tx_is_noop() {
    let mut l = Ledger::new();
    let mut h = History::new();
    process_tx(&mut l, &mut h, &record("deposit", 1, 1, Some(10000))).unwrap();
    let r = process_tx(&mut l, &mut h, &record("dispute", 1, 99, None));
    assert_eq!(r, Ok(ApplyOutcome::Rejected(Rejection::UnknownTx)));
    assert_account(l.get(1).unwrap(), 10000, 0, 10000, false);
}

#[test]
fn test_dispute_insufficient_available() {
    let mut l = Ledger::new();
    let mut h = History::new();
    process_tx(&mut l, &mut h, &record("deposit", 1, 1, Some(10000))).unwrap();
    process_tx(&mut l, &mut h, &record("withdrawal", 1, 2, Some(5000))).unwrap();
    // the retained deposit of 1.0000 exceeds the remaining 0.5000
    let r = process_tx(&mut l, &mut h, &record("dispute", 1, 1, None));
    assert_eq!(r, Ok(ApplyOutcome::Rejected(Rejection::InsufficientAvailable)));
    assert_account(l.get(1).unwrap(), 5000, 0, 5000, false);
}

#[test]
fn test_resolve_insufficient_held() {
    let mut l = Ledger::new();
    let mut h = History::new();
    process_tx(&mut l, &mut h, &record("deposit", 1, 1, Some(10000))).unwrap();
    let r = process_tx(&mut l, &mut h, &record("resolve", 1, 1, None));
    assert_eq!(r, Ok(ApplyOutcome::Rejected(Rejection::InsufficientHeld)));
    assert_account(l.get(1).unwrap(), 10000, 0, 10000, false);
}

// Dispute-after-dispute: the same retained amount is shifted a second
// time.
#[test]
fn test_dispute_twice_shifts_amount_twice() {
    let mut l = Ledger::new();
    let mut h = History::new();
    process_tx(&mut l, &mut h, &record("deposit", 1, 1, Some(50000))).unwrap();
    process_tx(&mut l, &mut h, &record("deposit", 1, 2, Some(50000))).unwrap();
    let r1 = process_tx(&mut l, &mut h, &record("dispute", 1, 1, None));
    assert_eq!(r1, Ok(ApplyOutcome::Applied));
    assert_account(l.get(1).unwrap(), 50000, 50000, 100000, false);
    let r2 = process_tx(&mut l, &mut h, &record("dispute", 1, 1, None));
    assert_eq!(r2, Ok(ApplyOutcome::Applied));
    assert_account(l.get(1).unwrap(), 0, 100000, 100000, false);
}

// Deposit, dispute, resolve: available and held return to their
// pre-dispute values and total never changes.
#[test]
fn test_dispute_resolve_roundtrip() {
    let mut l = Ledger::new();
    let mut h = History::new();
    process_tx(&mut l, &mut h, &record("deposit", 1, 1, Some(50000))).unwrap();
    assert_account(l.get(1).unwrap(), 50000, 0, 50000, false);
    process_tx(&mut l, &mut h, &record("dispute", 1, 1, None)).unwrap();
    assert_account(l.get(1).unwrap(), 0, 50000, 50000, false);
    process_tx(&mut l, &mut h, &record("resolve", 1, 1, None)).unwrap();
    assert_account(l.get(1).unwrap(), 50000, 0, 50000, false);
}

// Chargeback finality: the second chargeback finds no retained entry
// and changes nothing.
#[test]
fn test_chargeback_finality() {
    let mut l = Ledger::new();
    let mut h = History::new();
    process_tx(&mut l, &mut h, &record("deposit", 1, 1, Some(50000))).unwrap();
    process_tx(&mut l, &mut h, &record("dispute", 1, 1, None)).unwrap();
    let r1 = process_tx(&mut l, &mut h, &record("chargeback", 1, 1, None));
    assert_eq!(r1, Ok(ApplyOutcome::Applied));
    assert_account(l.get(1).unwrap(), 0, 0, 0, true);
    let r2 = process_tx(&mut l, &mut h, &record("chargeback", 1, 1, None));
    assert_eq!(r2, Ok(ApplyOutcome::Rejected(Rejection::UnknownTx)));
    assert_account(l.get(1).unwrap(), 0, 0, 0, true);
}

#[test]
fn test_chargeback_of_withdrawal_is_rejected() {
    let mut l = Ledger::new();
    let mut h = History::new();
    process_tx(&mut l, &mut h, &record("deposit", 1, 1, Some(50000))).unwrap();
    process_tx(&mut l, &mut h, &record("withdrawal", 1, 2, Some(20000))).unwrap();
    let r = process_tx(&mut l, &mut h, &record("chargeback", 1, 2, None));
    assert_eq!(r, Ok(ApplyOutcome::Rejected(Rejection::NotADeposit)));
    assert_account(l.get(1).unwrap(), 30000, 0, 30000, false);
    // the entry stays retained: a second attempt is rejected the same way
    let r2 = process_tx(&mut l, &mut h, &record("chargeback", 1, 2, None));
    assert_eq!(r2, Ok(ApplyOutcome::Rejected(Rejection::NotADeposit)));
}

// An undisputed chargeback drives held and total negative; this
// historical behavior is preserved, and total == available + held still
// holds.
#[test]
fn test_chargeback_without_dispute_goes_negative() {
    let mut l = Ledger::new();
    let mut h = History::new();
    process_tx(&mut l, &mut h, &record("deposit", 1, 1, Some(50000))).unwrap();
    let r = process_tx(&mut l, &mut h, &record("chargeback", 1, 1, None));
    assert_eq!(r, Ok(ApplyOutcome::Applied));
    assert_account(l.get(1).unwrap(), 50000, -50000, 0, true);
}

#[test]
fn test_deposit_overflow_rejected() {
    let mut l = Ledger::new();
    let mut h = History::new();
    process_tx(&mut l, &mut h, &record("deposit", 1, 1, Some(i64::MAX))).unwrap();
    let r = process_tx(&mut l, &mut h, &record("deposit", 1, 2, Some(1)));
    assert_eq!(r, Ok(ApplyOutcome::Rejected(Rejection::AmountOutOfRange)));
    assert_account(l.get(1).unwrap(), i64::MAX, 0, i64::MAX, false);
}

#[test]
fn test_cross_client_dispute_uses_disputers_account() {
    let mut l = Ledger::new();
    let mut h = History::new();
    process_tx(&mut l, &mut h, &record("deposit", 1, 1, Some(10000))).unwrap();
    process_tx(&mut l, &mut h, &record("deposit", 2, 2, Some(30000))).unwrap();
    // client 1 disputes client 2's transaction: the retained amount is
    // checked against and moved within client 1's own account
    let r = process_tx(&mut l, &mut h, &record("dispute", 1, 2, None));
    assert_eq!(r, Ok(ApplyOutcome::Rejected(Rejection::InsufficientAvailable)));
    assert_account(l.get(1).unwrap(), 10000, 0, 10000, false);
    assert_account(l.get(2).unwrap(), 30000, 0, 30000, false);
}
