//! A per-client accounting ledger that replays a sequence of transaction
//! records (deposits, withdrawals, disputes, resolutions, chargebacks) and
//! produces the final balances of every account.
//!
//! Monetary values are fixed-point decimals with four fractional digits,
//! carried as a signed count of ten-thousandths.

use vstd::prelude::*;

pub mod account;
pub mod records;
pub mod store;
pub mod processor;
pub mod laws;
pub mod render;

verus! {

/// Client identifier.
pub type ClientId = u16;

/// Transaction identifier.
pub type TxId = u32;

} // verus!
