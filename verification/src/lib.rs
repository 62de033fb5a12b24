//! A transactional in-memory accounts engine: create-account, deposit,
//! transfer and balance-query instructions against a set of accounts, with
//! strict idempotency by transaction id, conservation of funds across
//! transfers, and snapshot persistence of the full state.

pub mod models;
pub mod sharded;
pub mod store;
pub mod ids;
pub mod ledger;
pub mod processor;
pub mod snapshot;
pub mod config;
pub mod metrics;

use vstd::prelude::*;

verus! {

/// Adds two amounts, reporting overflow instead of wrapping.
pub fn checked_add_amount(a: u64, b: u64) -> (r: Option<u64>)
    ensures
        r matches Some(s) ==> s == a + b,
        r is None <==> a + b > u64::MAX,
{
    if a <= u64::MAX - b {
        Some(a + b)
    } else {
        None
    }
}

} // verus!
