//! The laws the processor obeys, proved once and for all over the
//! spec-level state machine.

use vstd::prelude::*;
use crate::{ClientId, TxId};
use crate::account::{Account, account_consistent, ledger_consistent};
use crate::records::{
    ApplyOutcome, HistEntry, ProcessingError, Rejection, Transaction, TxKind, spec_parse_kind,
};
use crate::processor::{spec_run, spec_step};
use crate::store::ensure_client;

verus! {

/// One processed record keeps the balance invariant: whatever the
/// record, every account of the resulting ledger still has
/// `total == available + held` — also when the record is fatal and the
/// run aborts, so a prefix application is always a consistent state.
pub proof fn lemma_step_preserves_consistency(
    l: Map<ClientId, Account>,
    h: Map<TxId, HistEntry>,
    t: Transaction,
)
    requires
        ledger_consistent(l),
    ensures
        match spec_step(l, h, t) {
            Ok(p) => ledger_consistent(p.0),
            Err(_) => ledger_consistent(ensure_client(l, t.client)),
        },
{
    let l0 = ensure_client(l, t.client);
    assert(ledger_consistent(l0));
    match spec_step(l, h, t) {
        Ok(p) => {
            assert forall|c: ClientId| #[trigger] p.0.contains_key(c) implies account_consistent(
                p.0[c],
            ) by {
                if c != t.client || p.0[c] == l0[c] {
                    assert(l0.contains_key(c));
                } else {
                    assert(l0.contains_key(t.client));
                    assert(account_consistent(l0[t.client]));
                }
            }
        },
        Err(_) => {},
    }
}

/// A whole run keeps the balance invariant: if every account satisfies
/// `total == available + held` at the start, every account of the final
/// ledger does too.
pub proof fn lemma_run_preserves_consistency(
    l: Map<ClientId, Account>,
    h: Map<TxId, HistEntry>,
    txs: Seq<Transaction>,
)
    requires
        ledger_consistent(l),
    ensures
        spec_run(l, h, txs) matches Ok(p) ==> ledger_consistent(p.0),
    decreases txs.len(),
{
    if txs.len() > 0 {
        lemma_step_preserves_consistency(l, h, txs[0]);
        match spec_step(l, h, txs[0]) {
            Ok(p) => {
                lemma_run_preserves_consistency(p.0, p.1, txs.skip(1));
            },
            Err(_) => {},
        }
    }
}

/// A deposit or withdrawal aimed at a locked account is rejected and
/// changes nothing: the ledger and the history come out exactly as they
/// went in.
pub proof fn lemma_locked_blocks_deposit_withdrawal(
    l: Map<ClientId, Account>,
    h: Map<TxId, HistEntry>,
    t: Transaction,
)
    requires
        spec_parse_kind(t.kind@) == Some(TxKind::Deposit) || spec_parse_kind(t.kind@) == Some(
            TxKind::Withdrawal,
        ),
        t.amount is Some,
        ensure_client(l, t.client)[t.client].locked,
    ensures
        l.contains_key(t.client),
        spec_step(l, h, t) == Ok::<_, ProcessingError>(
            (l, h, ApplyOutcome::Rejected(Rejection::LockedAccount)),
        ),
{
    assert(l.contains_key(t.client));
    assert(ensure_client(l, t.client) == l);
}

/// No record ever unlocks an account: once `locked` is true for a
/// client it stays true, whatever is processed next, and the client's
/// account never disappears.
pub proof fn lemma_step_locked_monotone(
    l: Map<ClientId, Account>,
    h: Map<TxId, HistEntry>,
    t: Transaction,
    c: ClientId,
)
    requires
        l.contains_key(c),
        l[c].locked,
    ensures
        spec_step(l, h, t) matches Ok(p) ==> p.0.contains_key(c) && p.0[c].locked,
{
}

/// Over a whole run: once `locked` is true for a client, it is still
/// true in the final ledger, whatever records follow.
pub proof fn lemma_run_locked_monotone(
    l: Map<ClientId, Account>,
    h: Map<TxId, HistEntry>,
    txs: Seq<Transaction>,
    c: ClientId,
)
    requires
        l.contains_key(c),
        l[c].locked,
    ensures
        spec_run(l, h, txs) matches Ok(p) ==> p.0.contains_key(c) && p.0[c].locked,
    decreases txs.len(),
{
    if txs.len() > 0 {
        lemma_step_locked_monotone(l, h, txs[0], c);
        match spec_step(l, h, txs[0]) {
            Ok(p) => {
                lemma_run_locked_monotone(p.0, p.1, txs.skip(1), c);
            },
            Err(_) => {},
        }
    }
}

/// Over a whole run of nothing but deposits and withdrawals: a locked
/// client's account comes through completely unchanged — in particular
/// its `available` and `total` stay what they were.
pub proof fn lemma_run_locked_blocks_deposits_withdrawals(
    l: Map<ClientId, Account>,
    h: Map<TxId, HistEntry>,
    txs: Seq<Transaction>,
    c: ClientId,
)
    requires
        l.contains_key(c),
        l[c].locked,
        forall|i: int|
            0 <= i < txs.len() ==> (#[trigger] spec_parse_kind(txs[i].kind@)) == Some(
                TxKind::Deposit,
            ) || spec_parse_kind(txs[i].kind@) == Some(TxKind::Withdrawal),
    ensures
        spec_run(l, h, txs) matches Ok(p) ==> p.0.contains_key(c) && p.0[c] == l[c],
    decreases txs.len(),
{
    if txs.len() > 0 {
        assert(spec_parse_kind(txs[0].kind@) == Some(TxKind::Deposit) || spec_parse_kind(
            txs[0].kind@,
        ) == Some(TxKind::Withdrawal));
        match spec_step(l, h, txs[0]) {
            Ok(p) => {
                assert(p.0.contains_key(c) && p.0[c] == l[c]);
                assert(forall|i: int|
                    0 <= i < txs.skip(1).len() ==> (#[trigger] spec_parse_kind(
                        txs.skip(1)[i].kind@,
                    )) == Some(TxKind::Deposit) || spec_parse_kind(txs.skip(1)[i].kind@) == Some(
                        TxKind::Withdrawal,
                    ));
                lemma_run_locked_blocks_deposits_withdrawals(p.0, p.1, txs.skip(1), c);
            },
            Err(_) => {},
        }
    }
}

/// Every entry the history retains is a deposit or a withdrawal: the
/// records of the other kinds are never retained, so only deposits and
/// withdrawals can ever be disputed, resolved or charged back.
pub open spec fn history_retained(h: Map<TxId, HistEntry>) -> bool {
    forall|x: TxId| #[trigger] h.contains_key(x) ==> (h[x].kind == TxKind::Deposit || h[x].kind
        == TxKind::Withdrawal)
}

/// A whole run keeps the history invariant: starting from a history
/// that retains only deposits and withdrawals (the empty one does), the
/// final history still retains only deposits and withdrawals.
pub proof fn lemma_run_preserves_history_retained(
    l: Map<ClientId, Account>,
    h: Map<TxId, HistEntry>,
    txs: Seq<Transaction>,
)
    requires
        history_retained(h),
    ensures
        spec_run(l, h, txs) matches Ok(p) ==> history_retained(p.1),
    decreases txs.len(),
{
    if txs.len() > 0 {
        match spec_step(l, h, txs[0]) {
            Ok(p) => {
                assert(history_retained(p.1));
                lemma_run_preserves_history_retained(p.0, p.1, txs.skip(1));
            },
            Err(_) => {},
        }
    }
}

/// Disputing a transaction that is already under dispute shifts the
/// same retained amount a second time: each accepted dispute of `txid`
/// moves exactly the retained amount from `available` to `held`, leaves
/// `total` and the history untouched, so two accepted disputes in a row
/// subtract the amount from `available` twice and add it to `held`
/// twice.
pub proof fn lemma_dispute_repeat(
    l: Map<ClientId, Account>,
    h: Map<TxId, HistEntry>,
    t: Transaction,
)
    requires
        spec_parse_kind(t.kind@) == Some(TxKind::Dispute),
        h.contains_key(t.tx),
        ensure_client(l, t.client)[t.client].available >= h[t.tx].amount,
        ensure_client(l, t.client)[t.client].available - 2 * h[t.tx].amount >= 0,
        i64::MIN <= ensure_client(l, t.client)[t.client].available - 2 * h[t.tx].amount
            <= i64::MAX,
        i64::MIN <= ensure_client(l, t.client)[t.client].held + 2 * h[t.tx].amount <= i64::MAX,
    ensures
        ({
            let a0 = ensure_client(l, t.client)[t.client];
            let amt = h[t.tx].amount;
            &&& spec_step(l, h, t) matches Ok(p1) && spec_step(p1.0, p1.1, t) matches Ok(p2)
                && p1.1 == h && p2.1 == h && p2.0[t.client] == Account {
                client: a0.client,
                available: (a0.available - 2 * amt) as i64,
                held: (a0.held + 2 * amt) as i64,
                total: a0.total,
                locked: a0.locked,
            }
        }),
{
    let l0 = ensure_client(l, t.client);
    let a0 = l0[t.client];
    let amt = h[t.tx].amount;
    assert(i64::MIN <= a0.available - amt <= i64::MAX);
    assert(i64::MIN <= a0.held + amt <= i64::MAX);
    let p1 = spec_step(l, h, t).unwrap();
    assert(p1.0.contains_key(t.client));
    assert(ensure_client(p1.0, t.client) == p1.0);
}

/// Disputing and then resolving the same transaction is a round trip:
/// the resolve is accepted and returns `available` and `held` to their
/// pre-dispute values, and `total` is unchanged throughout — after the
/// dispute as well as after the resolve.
pub proof fn lemma_dispute_resolve_roundtrip(
    l: Map<ClientId, Account>,
    h: Map<TxId, HistEntry>,
    td: Transaction,
    tr: Transaction,
)
    requires
        spec_parse_kind(td.kind@) == Some(TxKind::Dispute),
        spec_parse_kind(tr.kind@) == Some(TxKind::Resolve),
        tr.client == td.client,
        tr.tx == td.tx,
        h.contains_key(td.tx),
        ensure_client(l, td.client)[td.client].available >= h[td.tx].amount,
        ensure_client(l, td.client)[td.client].held >= 0,
        i64::MIN <= ensure_client(l, td.client)[td.client].available - h[td.tx].amount
            <= i64::MAX,
        i64::MIN <= ensure_client(l, td.client)[td.client].held + h[td.tx].amount <= i64::MAX,
    ensures
        ({
            let l0 = ensure_client(l, td.client);
            &&& spec_step(l, h, td) matches Ok(p1) && p1.2 == ApplyOutcome::Applied && p1.1 == h
                && p1.0[td.client].total == l0[td.client].total && spec_step(p1.0, p1.1, tr)
                == Ok::<_, ProcessingError>((l0, h, ApplyOutcome::Applied))
        }),
{
    let l0 = ensure_client(l, td.client);
    let a0 = l0[td.client];
    let amt = h[td.tx].amount;
    let p1 = spec_step(l, h, td).unwrap();
    assert(p1.0.contains_key(td.client));
    assert(ensure_client(p1.0, tr.client) == p1.0);
    let p2 = spec_step(p1.0, p1.1, tr).unwrap();
    assert(p2.0[td.client] == a0);
    assert(p2.0 =~= l0);
}

/// A chargeback of a transaction the history does not hold is a
/// rejected no-op: beyond the lazily created account of its client,
/// nothing changes — in particular it neither locks the account nor
/// adjusts any balance.
pub proof fn lemma_chargeback_unknown_noop(
    l: Map<ClientId, Account>,
    h: Map<TxId, HistEntry>,
    t: Transaction,
)
    requires
        spec_parse_kind(t.kind@) == Some(TxKind::Chargeback),
        !h.contains_key(t.tx),
    ensures
        spec_step(l, h, t) == Ok::<_, ProcessingError>(
            (ensure_client(l, t.client), h, ApplyOutcome::Rejected(Rejection::UnknownTx)),
        ),
{
}

/// Chargeback finality: an accepted chargeback removes the retained
/// entry, so a second chargeback of the same transaction is a rejected
/// no-op — it does not re-lock the account and does not adjust any
/// balance again.
pub proof fn lemma_chargeback_twice(
    l: Map<ClientId, Account>,
    h: Map<TxId, HistEntry>,
    t: Transaction,
)
    requires
        spec_parse_kind(t.kind@) == Some(TxKind::Chargeback),
        spec_step(l, h, t) matches Ok(p) && p.2 == ApplyOutcome::Applied,
    ensures
        ({
            let p1 = spec_step(l, h, t).unwrap();
            &&& !p1.1.contains_key(t.tx)
            &&& p1.0[t.client].locked
            &&& spec_step(p1.0, p1.1, t) == Ok::<_, ProcessingError>(
                (p1.0, p1.1, ApplyOutcome::Rejected(Rejection::UnknownTx)),
            )
        }),
{
    let p1 = spec_step(l, h, t).unwrap();
    assert(p1.0.contains_key(t.client));
    assert(ensure_client(p1.0, t.client) == p1.0);
}

/// A record whose kind tag names no recognized kind is fatal wherever
/// it stands: a run that returns a final ledger processed no such
/// record (and every deposit or withdrawal it processed carried an
/// amount).
pub proof fn lemma_run_ok_all_kinds_known(
    l: Map<ClientId, Account>,
    h: Map<TxId, HistEntry>,
    txs: Seq<Transaction>,
)
    ensures
        spec_run(l, h, txs) is Ok ==> forall|i: int|
            0 <= i < txs.len() ==> (#[trigger] spec_parse_kind(txs[i].kind@)) is Some,
    decreases txs.len(),
{
    if txs.len() > 0 {
        match spec_step(l, h, txs[0]) {
            Ok(p) => {
                lemma_run_ok_all_kinds_known(p.0, p.1, txs.skip(1));
                if spec_run(l, h, txs) is Ok {
                    assert forall|i: int|
                        0 <= i < txs.len() implies (#[trigger] spec_parse_kind(
                        txs[i].kind@,
                    )) is Some by {
                        if i > 0 {
                            assert(txs.skip(1)[i - 1] == txs[i]);
                        }
                    }
                }
            },
            Err(_) => {},
        }
    }
}

} // verus!
