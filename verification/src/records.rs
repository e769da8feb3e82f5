//! Input transaction records, the retained history entries, and the
//! two-tier error taxonomy of the processor.

use vstd::prelude::*;
use crate::{ClientId, TxId};

verus! {

/// The recognized transaction kinds.
#[derive(Clone, Copy, Debug, PartialEq, Eq, Structural)]
pub enum TxKind {
    Deposit,
    Withdrawal,
    Dispute,
    Resolve,
    Chargeback,
}

/// One input record. `kind` is the textual kind tag as read from the
/// source; a tag that names no recognized kind is fatal to the run.
/// `amount` counts ten-thousandths and is present only for deposits and
/// withdrawals.
pub struct Transaction {
    pub kind: String,
    pub client: ClientId,
    pub tx: TxId,
    pub amount: Option<i64>,
}

/// A retained copy of an accepted deposit or withdrawal, keyed in the
/// history by its `tx` identifier. Only such entries can be disputed.
#[derive(Clone, Copy, Debug, PartialEq, Eq, Structural)]
pub struct HistEntry {
    pub kind: TxKind,
    pub client: ClientId,
    pub tx: TxId,
    pub amount: i64,
}

/// A fatal error: it aborts the whole run.
#[derive(Clone, Copy, Debug, PartialEq, Eq, Structural)]
pub enum ProcessingError {
    /// A deposit or withdrawal record carried no amount.
    MissingAmount,
    /// A record carried a kind tag that names no recognized kind.
    UnknownTransactionKind,
}

/// Why a single record was rejected. Rejections are per-record and
/// non-fatal: the ledger is left unchanged and the run continues.
#[derive(Clone, Copy, Debug, PartialEq, Eq, Structural)]
pub enum Rejection {
    /// Deposit or withdrawal on a locked account.
    LockedAccount,
    /// Withdrawal or dispute asking for more than is available.
    InsufficientAvailable,
    /// Resolve asking for more than is held.
    InsufficientHeld,
    /// Dispute, resolve or chargeback naming a transaction that the
    /// history does not hold.
    UnknownTx,
    /// Chargeback naming a retained transaction that is not a deposit.
    NotADeposit,
    /// A balance update would leave the representable range.
    AmountOutOfRange,
}

/// What applying one record did to the state.
#[derive(Clone, Copy, Debug, PartialEq, Eq, Structural)]
pub enum ApplyOutcome {
    /// The record's balance updates were applied in full.
    Applied,
    /// The record was rejected for the given reason; nothing changed.
    Rejected(Rejection),
}

/// The kind named by a textual kind tag, if any.
pub open spec fn spec_parse_kind(s: Seq<char>) -> Option<TxKind> {
    if s == "deposit"@ {
        Some(TxKind::Deposit)
    } else if s == "withdrawal"@ {
        Some(TxKind::Withdrawal)
    } else if s == "dispute"@ {
        Some(TxKind::Dispute)
    } else if s == "resolve"@ {
        Some(TxKind::Resolve)
    } else if s == "chargeback"@ {
        Some(TxKind::Chargeback)
    } else {
        None
    }
}

/// Maps a kind tag to the kind it names, or `None` for an unrecognized
/// tag.
pub fn parse_kind(s: &String) -> (r: Option<TxKind>)
    ensures
        r == spec_parse_kind(s@),
{
    if *s == "deposit".to_owned() {
        Some(TxKind::Deposit)
    } else if *s == "withdrawal".to_owned() {
        Some(TxKind::Withdrawal)
    } else if *s == "dispute".to_owned() {
        Some(TxKind::Dispute)
    } else if *s == "resolve".to_owned() {
        Some(TxKind::Resolve)
    } else if *s == "chargeback".to_owned() {
        Some(TxKind::Chargeback)
    } else {
        None
    }
}

} // verus!
