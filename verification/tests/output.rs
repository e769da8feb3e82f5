use ledger::processor::process;
use ledger::records::Transaction;
use ledger::render::format_amount;

fn record(kind: &str, client: u16, tx: u32, amount: Option<i64>) -> Transaction {
    Transaction { kind: kind.to_string(), client, tx, amount }
}

#[test]
fn test_format_amount_exact_values() {
    assert_eq!(format_amount(0), "0.0000");
    assert_eq!(format_amount(1), "0.0001");
    assert_eq!(format_amount(10000), "1.0000");
    assert_eq!(format_amount(15000), "1.5000");
    assert_eq!(format_amount(5000), "0.5000");
    assert_eq!(format_amount(123456789), "12345.6789");
    assert_eq!(format_amount(-1), "-0.0001");
    assert_eq!(format_amount(-5000), "-0.5000");
    assert_eq!(format_amount(-123450000), "-12345.0000");
    assert_eq!(format_amount(i64::MAX), "922337203685477.5807");
    assert_eq!(format_amount(i64::MIN), "-922337203685477.5808");
}

// The rendering half of writing the ledger out: one row per client,
// balances with exactly four fractional digits, reaching the state of a
// locked account with funds still held.
#[test]
fn test_output() {
    let records = vec![
        record("deposit", 1, 1, Some(10000)),
        record("deposit", 1, 2, Some(5000)),
        record("deposit", 1, 3, Some(10000)),
        record("dispute", 1, 2, None),
        record("dispute", 1, 3, None),
        record("chargeback", 1, 3, None),
        record("deposit", 2, 4, Some(15000)),
    ];
    let ledger = process(&records).unwrap();
    let snap = ledger.snapshot();
    assert_eq!(snap.len(), 2);
    assert_eq!(snap[0].client, 1);
    assert_eq!(format_amount(snap[0].available), "1.0000");
    assert_eq!(format_amount(snap[0].held), "0.5000");
    assert_eq!(format_amount(snap[0].total), "1.5000");
    assert_eq!(snap[0].locked, true);
    assert_eq!(snap[1].client, 2);
    assert_eq!(format_amount(snap[1].available), "1.5000");
    assert_eq!(format_amount(snap[1].held), "0.0000");
    assert_eq!(format_amount(snap[1].total), "1.5000");
    assert_eq!(snap[1].locked, false);
}

#[test]
fn test_snapshot_lists_every_account_once() {
    let records = vec![
        record("deposit", 5, 1, Some(10000)),
        record("deposit", 3, 2, Some(20000)),
        record("deposit", 5, 3, Some(5000)),
    ];
    let ledger = process(&records).unwrap();
    let snap = ledger.snapshot();
    assert_eq!(snap.len(), 2);
    assert_eq!(snap[0].client, 5);
    assert_eq!(snap[0].available, 15000);
    assert_eq!(snap[1].client, 3);
    assert_eq!(snap[1].available, 20000);
}

#[test]
fn test_clients_vec_in_first_appearance_order() {
    let records = vec![
        record("deposit", 9, 1, Some(10000)),
        record("deposit", 2, 2, Some(10000)),
        record("withdrawal", 9, 3, Some(5000)),
    ];
    let ledger = process(&records).unwrap();
    assert_eq!(ledger.clients_vec(), vec![9, 2]);
}
