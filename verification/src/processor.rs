//! The transaction processor: a single-pass state machine that applies
//! one record at a time to the ledger and the transaction history.
//!
//! Two tiers of failure: a missing amount or an unrecognized kind tag is
//! fatal and aborts the run; every other irregularity (locked account,
//! insufficient funds, a reference to an unknown or mismatched prior
//! transaction, a balance update that would leave the representable
//! range) rejects that one record and the run continues. A record's
//! effect is atomic: either all of its balance updates happen, or none.

use vstd::prelude::*;
use crate::{ClientId, TxId};
use crate::account::Account;
use crate::records::{
    ApplyOutcome, HistEntry, ProcessingError, Rejection, Transaction, TxKind, parse_kind,
    spec_parse_kind,
};
use crate::store::{History, Ledger, ensure_client};

verus! {

/// Whether a mathematical value fits the fixed-point representation.
pub open spec fn in_amount_range(x: int) -> bool {
    i64::MIN <= x <= i64::MAX
}

/// The state after a deposit of `amt` for client `c`, keyed `txid`, on a
/// ledger that already holds an account for `c`. A locked account
/// rejects the deposit; otherwise the amount is added to `available`
/// and `total` and the record is retained in the history.
pub open spec fn spec_deposit(
    l: Map<ClientId, Account>,
    h: Map<TxId, HistEntry>,
    c: ClientId,
    txid: TxId,
    amt: i64,
) -> (Map<ClientId, Account>, Map<TxId, HistEntry>, ApplyOutcome) {
    let a = l[c];
    if a.locked {
        (l, h, ApplyOutcome::Rejected(Rejection::LockedAccount))
    } else if !in_amount_range(a.available + amt) || !in_amount_range(a.total + amt) {
        (l, h, ApplyOutcome::Rejected(Rejection::AmountOutOfRange))
    } else {
        (
            l.insert(
                c,
                Account {
                    client: a.client,
                    available: (a.available + amt) as i64,
                    held: a.held,
                    total: (a.total + amt) as i64,
                    locked: a.locked,
                },
            ),
            h.insert(txid, HistEntry { kind: TxKind::Deposit, client: c, tx: txid, amount: amt }),
            ApplyOutcome::Applied,
        )
    }
}

/// The state after a withdrawal of `amt` for client `c`, keyed `txid`.
/// A locked account or insufficient available funds reject it;
/// otherwise the amount is taken from `available` and `total` and the
/// record is retained in the history.
pub open spec fn spec_withdrawal(
    l: Map<ClientId, Account>,
    h: Map<TxId, HistEntry>,
    c: ClientId,
    txid: TxId,
    amt: i64,
) -> (Map<ClientId, Account>, Map<TxId, HistEntry>, ApplyOutcome) {
    let a = l[c];
    if a.locked {
        (l, h, ApplyOutcome::Rejected(Rejection::LockedAccount))
    } else if a.available < amt {
        (l, h, ApplyOutcome::Rejected(Rejection::InsufficientAvailable))
    } else if !in_amount_range(a.available - amt) || !in_amount_range(a.total - amt) {
        (l, h, ApplyOutcome::Rejected(Rejection::AmountOutOfRange))
    } else {
        (
            l.insert(
                c,
                Account {
                    client: a.client,
                    available: (a.available - amt) as i64,
                    held: a.held,
                    total: (a.total - amt) as i64,
                    locked: a.locked,
                },
            ),
            h.insert(
                txid,
                HistEntry { kind: TxKind::Withdrawal, client: c, tx: txid, amount: amt },
            ),
            ApplyOutcome::Applied,
        )
    }
}

/// The state after a dispute by client `c` of the retained transaction
/// `txid`. An unknown transaction, or available funds short of the
/// retained amount, rejects it; otherwise that amount moves from
/// `available` to `held`, `total` unchanged, and the entry stays in the
/// history so it can later be resolved or charged back.
pub open spec fn spec_dispute(
    l: Map<ClientId, Account>,
    h: Map<TxId, HistEntry>,
    c: ClientId,
    txid: TxId,
) -> (Map<ClientId, Account>, Map<TxId, HistEntry>, ApplyOutcome) {
    if !h.contains_key(txid) {
        (l, h, ApplyOutcome::Rejected(Rejection::UnknownTx))
    } else {
        let amt = h[txid].amount;
        let a = l[c];
        if a.available < amt {
            (l, h, ApplyOutcome::Rejected(Rejection::InsufficientAvailable))
        } else if !in_amount_range(a.available - amt) || !in_amount_range(a.held + amt) {
            (l, h, ApplyOutcome::Rejected(Rejection::AmountOutOfRange))
        } else {
            (
                l.insert(
                    c,
                    Account {
                        client: a.client,
                        available: (a.available - amt) as i64,
                        held: (a.held + amt) as i64,
                        total: a.total,
                        locked: a.locked,
                    },
                ),
                h,
                ApplyOutcome::Applied,
            )
        }
    }
}

/// The state after client `c` resolves the retained transaction `txid`.
/// An unknown transaction, or held funds short of the retained amount,
/// rejects it; otherwise that amount moves back from `held` to
/// `available`, `total` unchanged, and the entry stays in the history.
pub open spec fn spec_resolve(
    l: Map<ClientId, Account>,
    h: Map<TxId, HistEntry>,
    c: ClientId,
    txid: TxId,
) -> (Map<ClientId, Account>, Map<TxId, HistEntry>, ApplyOutcome) {
    if !h.contains_key(txid) {
        (l, h, ApplyOutcome::Rejected(Rejection::UnknownTx))
    } else {
        let amt = h[txid].amount;
        let a = l[c];
        if a.held < amt {
            (l, h, ApplyOutcome::Rejected(Rejection::InsufficientHeld))
        } else if !in_amount_range(a.held - amt) || !in_amount_range(a.available + amt) {
            (l, h, ApplyOutcome::Rejected(Rejection::AmountOutOfRange))
        } else {
            (
                l.insert(
                    c,
                    Account {
                        client: a.client,
                        available: (a.available + amt) as i64,
                        held: (a.held - amt) as i64,
                        total: a.total,
                        locked: a.locked,
                    },
                ),
                h,
                ApplyOutcome::Applied,
            )
        }
    }
}

/// The state after client `c` charges back the retained transaction
/// `txid`. An unknown transaction, or one that is not a deposit,
/// rejects it; otherwise the account is locked, the retained amount is
/// taken from `held` and `total` (which may legitimately go negative),
/// and the entry is removed so it cannot be charged back twice.
pub open spec fn spec_chargeback(
    l: Map<ClientId, Account>,
    h: Map<TxId, HistEntry>,
    c: ClientId,
    txid: TxId,
) -> (Map<ClientId, Account>, Map<TxId, HistEntry>, ApplyOutcome) {
    if !h.contains_key(txid) {
        (l, h, ApplyOutcome::Rejected(Rejection::UnknownTx))
    } else if h[txid].kind != TxKind::Deposit {
        (l, h, ApplyOutcome::Rejected(Rejection::NotADeposit))
    } else {
        let amt = h[txid].amount;
        let a = l[c];
        if !in_amount_range(a.held - amt) || !in_amount_range(a.total - amt) {
            (l, h, ApplyOutcome::Rejected(Rejection::AmountOutOfRange))
        } else {
            (
                l.insert(
                    c,
                    Account {
                        client: a.client,
                        available: a.available,
                        held: (a.held - amt) as i64,
                        total: (a.total - amt) as i64,
                        locked: true,
                    },
                ),
                h.remove(txid),
                ApplyOutcome::Applied,
            )
        }
    }
}

/// The whole effect of one record: the account of its client is brought
/// into existence first, then the record is dispatched by its kind tag.
/// `Err` means the run aborts; `Ok` carries the next ledger, the next
/// history, and whether the record was applied or rejected.
pub open spec fn spec_step(
    l: Map<ClientId, Account>,
    h: Map<TxId, HistEntry>,
    t: Transaction,
) -> Result<(Map<ClientId, Account>, Map<TxId, HistEntry>, ApplyOutcome), ProcessingError> {
    let l0 = ensure_client(l, t.client);
    match spec_parse_kind(t.kind@) {
        None => Err(ProcessingError::UnknownTransactionKind),
        Some(TxKind::Deposit) => match t.amount {
            None => Err(ProcessingError::MissingAmount),
            Some(amt) => Ok(spec_deposit(l0, h, t.client, t.tx, amt)),
        },
        Some(TxKind::Withdrawal) => match t.amount {
            None => Err(ProcessingError::MissingAmount),
            Some(amt) => Ok(spec_withdrawal(l0, h, t.client, t.tx, amt)),
        },
        Some(TxKind::Dispute) => Ok(spec_dispute(l0, h, t.client, t.tx)),
        Some(TxKind::Resolve) => Ok(spec_resolve(l0, h, t.client, t.tx)),
        Some(TxKind::Chargeback) => Ok(spec_chargeback(l0, h, t.client, t.tx)),
    }
}

/// Applies one record to the ledger and the history.
///
/// On `Ok` the new state is exactly what `spec_step` gives, and the
/// outcome says whether the record was applied or why it was rejected.
/// On `Err` the run must abort; the only trace left is the account that
/// was brought into existence for the record's client.
pub fn process_tx(ledger: &mut Ledger, history: &mut History, t: &Transaction) -> (r: Result<
    ApplyOutcome,
    ProcessingError,
>)
    requires
        old(ledger).wf(),
    ensures
        final(ledger).wf(),
        match spec_step(old(ledger)@, old(history)@, *t) {
            Ok((l1, h1, out)) => {
                &&& r == Ok::<ApplyOutcome, ProcessingError>(out)
                &&& final(ledger)@ == l1
                &&& final(history)@ == h1
            },
            Err(e) => {
                &&& r == Err::<ApplyOutcome, ProcessingError>(e)
                &&& final(ledger)@ == ensure_client(old(ledger)@, t.client)
                &&& final(history)@ == old(history)@
            },
        },
{
    let acc = ledger.get_or_create(t.client);
    let txid = t.tx;
    match parse_kind(&t.kind) {
        None => Err(ProcessingError::UnknownTransactionKind),
        Some(TxKind::Deposit) => {
            let amt = match t.amount {
                Some(amt) => amt,
                None => {
                    return Err(ProcessingError::MissingAmount);
                },
            };
            if acc.locked {
                return Ok(ApplyOutcome::Rejected(Rejection::LockedAccount));
            }
            match (acc.available.checked_add(amt), acc.total.checked_add(amt)) {
                (Some(av), Some(to)) => {
                    ledger.put(
                        t.client,
                        Account {
                            client: acc.client,
                            available: av,
                            held: acc.held,
                            total: to,
                            locked: acc.locked,
                        },
                    );
                    history.record(
                        HistEntry { kind: TxKind::Deposit, client: t.client, tx: txid, amount: amt },
                    );
                    Ok(ApplyOutcome::Applied)
                },
                _ => Ok(ApplyOutcome::Rejected(Rejection::AmountOutOfRange)),
            }
        },
        Some(TxKind::Withdrawal) => {
            let amt = match t.amount {
                Some(amt) => amt,
                None => {
                    return Err(ProcessingError::MissingAmount);
                },
            };
            if acc.locked {
                return Ok(ApplyOutcome::Rejected(Rejection::LockedAccount));
            }
            if acc.available < amt {
                return Ok(ApplyOutcome::Rejected(Rejection::InsufficientAvailable));
            }
            match (acc.available.checked_sub(amt), acc.total.checked_sub(amt)) {
                (Some(av), Some(to)) => {
                    ledger.put(
                        t.client,
                        Account {
                            client: acc.client,
                            available: av,
                            held: acc.held,
                            total: to,
                            locked: acc.locked,
                        },
                    );
                    history.record(
                        HistEntry {
                            kind: TxKind::Withdrawal,
                            client: t.client,
                            tx: txid,
                            amount: amt,
                        },
                    );
                    Ok(ApplyOutcome::Applied)
                },
                _ => Ok(ApplyOutcome::Rejected(Rejection::AmountOutOfRange)),
            }
        },
        Some(TxKind::Dispute) => {
            let entry = match history.lookup(txid) {
                Some(entry) => entry,
                None => {
                    return Ok(ApplyOutcome::Rejected(Rejection::UnknownTx));
                },
            };
            let amt = entry.amount;
            if acc.available < amt {
                return Ok(ApplyOutcome::Rejected(Rejection::InsufficientAvailable));
            }
            match (acc.available.checked_sub(amt), acc.held.checked_add(amt)) {
                (Some(av), Some(he)) => {
                    ledger.put(
                        t.client,
                        Account {
                            client: acc.client,
                            available: av,
                            held: he,
                            total: acc.total,
                            locked: acc.locked,
                        },
                    );
                    Ok(ApplyOutcome::Applied)
                },
                _ => Ok(ApplyOutcome::Rejected(Rejection::AmountOutOfRange)),
            }
        },
        Some(TxKind::Resolve) => {
            let entry = match history.lookup(txid) {
                Some(entry) => entry,
                None => {
                    return Ok(ApplyOutcome::Rejected(Rejection::UnknownTx));
                },
            };
            let amt = entry.amount;
            if acc.held < amt {
                return Ok(ApplyOutcome::Rejected(Rejection::InsufficientHeld));
            }
            match (acc.held.checked_sub(amt), acc.available.checked_add(amt)) {
                (Some(he), Some(av)) => {
                    ledger.put(
                        t.client,
                        Account {
                            client: acc.client,
                            available: av,
                            held: he,
                            total: acc.total,
                            locked: acc.locked,
                        },
                    );
                    Ok(ApplyOutcome::Applied)
                },
                _ => Ok(ApplyOutcome::Rejected(Rejection::AmountOutOfRange)),
            }
        },
        Some(TxKind::Chargeback) => {
            let entry = match history.lookup(txid) {
                Some(entry) => entry,
                None => {
                    return Ok(ApplyOutcome::Rejected(Rejection::UnknownTx));
                },
            };
            match entry.kind {
                TxKind::Deposit => {},
                _ => {
                    return Ok(ApplyOutcome::Rejected(Rejection::NotADeposit));
                },
            }
            let amt = entry.amount;
            match (acc.held.checked_sub(amt), acc.total.checked_sub(amt)) {
                (Some(he), Some(to)) => {
                    history.remove(txid);
                    ledger.put(
                        t.client,
                        Account {
                            client: acc.client,
                            available: acc.available,
                            held: he,
                            total: to,
                            locked: true,
                        },
                    );
                    Ok(ApplyOutcome::Applied)
                },
                _ => Ok(ApplyOutcome::Rejected(Rejection::AmountOutOfRange)),
            }
        },
    }
}

/// Folds the processor over a whole sequence of records, starting from
/// the given state: the final state, or the first fatal error.
pub open spec fn spec_run(
    l: Map<ClientId, Account>,
    h: Map<TxId, HistEntry>,
    txs: Seq<Transaction>,
) -> Result<(Map<ClientId, Account>, Map<TxId, HistEntry>), ProcessingError>
    decreases txs.len(),
{
    if txs.len() == 0 {
        Ok((l, h))
    } else {
        match spec_step(l, h, txs[0]) {
            Err(e) => Err(e),
            Ok((l1, h1, _out)) => spec_run(l1, h1, txs.skip(1)),
        }
    }
}

/// Replays a whole sequence of records against a fresh ledger and a
/// fresh history, stopping at the first fatal error.
///
/// Returns the final ledger exactly when the fold of `spec_step` over
/// the records from the empty state does, and that fold's state; on a
/// fatal record it returns that record's error and no ledger.
pub fn process(records: &Vec<Transaction>) -> (r: Result<Ledger, ProcessingError>)
    ensures
        match spec_run(
            Map::<ClientId, Account>::empty(),
            Map::<TxId, HistEntry>::empty(),
            records@,
        ) {
            Ok(p) => r matches Ok(l) && l@ == p.0 && l.wf() && crate::account::ledger_consistent(l@),
            Err(e) => r matches Err(e2) && e2 == e,
        },
{
    let mut ledger = Ledger::new();
    let mut history = History::new();
    let n = records.len();
    let mut i: usize = 0;
    proof {
        assert(records@.skip(0) =~= records@);
    }
    while i < n
        invariant
            n == records@.len(),
            i <= n,
            ledger.wf(),
            spec_run(Map::<ClientId, Account>::empty(), Map::<TxId, HistEntry>::empty(), records@)
                == spec_run(ledger@, history@, records@.skip(i as int)),
        decreases n - i,
    {
        let ghost l_pre = ledger@;
        let ghost h_pre = history@;
        let ghost rest = records@.skip(i as int);
        proof {
            assert(rest[0] == records@[i as int]);
            assert(rest.skip(1) =~= records@.skip(i + 1));
        }
        match process_tx(&mut ledger, &mut history, &records[i]) {
            Ok(_) => {},
            Err(e) => {
                proof {
                    assert(spec_step(l_pre, h_pre, records@[i as int]) == Err::<
                        (Map<ClientId, Account>, Map<TxId, HistEntry>, ApplyOutcome),
                        ProcessingError,
                    >(e));
                    assert(spec_run(l_pre, h_pre, rest) == Err::<
                        (Map<ClientId, Account>, Map<TxId, HistEntry>),
                        ProcessingError,
                    >(e));
                }
                return Err(e);
            },
        }
        i += 1;
    }
    proof {
        assert(records@.skip(n as int) =~= Seq::<Transaction>::empty());
    }
    proof {
        crate::laws::lemma_run_preserves_consistency(
            Map::<ClientId, Account>::empty(),
            Map::<TxId, HistEntry>::empty(),
            records@,
        );
    }
    Ok(ledger)
}

} // verus!
