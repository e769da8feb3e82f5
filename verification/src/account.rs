//! The per-client account record and its consistency predicate.

use vstd::prelude::*;
use crate::ClientId;

verus! {

/// One client's balances. `available` is usable for withdrawals and
/// disputes, `held` is frozen pending dispute resolution, and `total`
/// always equals their sum. Once `locked` is set by a chargeback, no
/// further deposit or withdrawal is applied. All monetary fields count
/// ten-thousandths of the currency unit (four fixed decimal places).
#[derive(Clone, Copy, Debug, PartialEq, Eq, Structural)]
pub struct Account {
    pub client: ClientId,
    pub available: i64,
    pub held: i64,
    pub total: i64,
    pub locked: bool,
}

/// The balance invariant of a single account: the total is exactly the
/// available part plus the held part.
pub open spec fn account_consistent(a: Account) -> bool {
    a.total == a.available + a.held
}

/// Every account of a ledger satisfies the balance invariant
/// `total == available + held`.
pub open spec fn ledger_consistent(l: Map<ClientId, Account>) -> bool {
    forall|c: ClientId| #[trigger] l.contains_key(c) ==> account_consistent(l[c])
}

/// The freshly created account of a client: zero balances, unlocked.
pub open spec fn spec_zero_account(c: ClientId) -> Account {
    Account { client: c, available: 0, held: 0, total: 0, locked: false }
}

/// Builds the account a client starts with: zero balances, unlocked.
pub fn zero_account(c: ClientId) -> (a: Account)
    ensures
        a == spec_zero_account(c),
{
    Account { client: c, available: 0, held: 0, total: 0, locked: false }
}

} // verus!
