//! Snapshot persistence: the engine's full state as plain listings, taken at
//! graceful shutdown and adopted again at boot.
//!
//! [`save_state`] lists every account, every recorded transaction and every
//! processed id; [`load_state`] rebuilds an engine from such listings. The
//! round-trip law [`lemma_snapshot_round_trip`] shows that loading what was
//! saved restores exactly the saved state, whatever order the listings came
//! in. Writing the listings to the embedded SQL store and reading them back
//! is plain input and output and stays outside the engine.

use vstd::prelude::*;
use crate::models::Account;
use crate::models::AccountV;
use crate::models::Transaction;
use crate::models::TransactionV;
use crate::processor::TransactionProcessor;
use crate::processor::ProcessorV;
use crate::ledger::LedgerV;
use crate::store::account_entries_match;
use crate::store::transaction_entries_match;
use crate::store::rebuilt_accounts;
use crate::store::rebuilt_transactions;
use crate::store::lemma_rebuilt_accounts_match;
use crate::store::lemma_rebuilt_transactions_match;

verus! {

/// The engine's full durable state, as plain listings.
pub struct Snapshot {
    pub accounts: Vec<Account>,
    pub transactions: Vec<Transaction>,
    pub processed_ids: Vec<u128>,
}

/// The listings list exactly the state `v`, each container once, in some
/// order.
pub open spec fn snapshot_matches(
    accounts: Seq<AccountV>,
    transactions: Seq<TransactionV>,
    processed: Seq<u128>,
    v: ProcessorV,
) -> bool {
    &&& account_entries_match(accounts, v.ledger.accounts)
    &&& transaction_entries_match(transactions, v.transactions)
    &&& processed.to_set() == v.ledger.processed
    &&& processed.no_duplicates()
}

/// The state that loading the given listings rebuilds.
pub open spec fn rebuilt_state(
    accounts: Seq<AccountV>,
    transactions: Seq<TransactionV>,
    processed: Seq<u128>,
) -> ProcessorV {
    ProcessorV {
        ledger: LedgerV { accounts: rebuilt_accounts(accounts), processed: processed.to_set() },
        transactions: rebuilt_transactions(transactions),
    }
}

/// Takes a full snapshot of the engine's state.
pub fn save_state(processor: &TransactionProcessor) -> (s: Snapshot)
    requires
        processor.wf(),
    ensures
        snapshot_matches(
            s.accounts@.map_values(|a: Account| a@),
            s.transactions@.map_values(|t: Transaction| t@),
            s.processed_ids@,
            processor@,
        ),
{
    Snapshot {
        accounts: processor.ledger().export_accounts(),
        transactions: processor.export_transactions(),
        processed_ids: processor.ledger().export_processed(),
    }
}

/// Rebuilds an engine from a snapshot's listings.
pub fn load_state(s: &Snapshot) -> (p: TransactionProcessor)
    ensures
        p.wf(),
        p@ == rebuilt_state(
            s.accounts@.map_values(|a: Account| a@),
            s.transactions@.map_values(|t: Transaction| t@),
            s.processed_ids@,
        ),
{
    let p = TransactionProcessor::restore(&s.accounts, &s.transactions, &s.processed_ids);
    proof {
        assert(p@ =~= rebuilt_state(
            s.accounts@.map_values(|a: Account| a@),
            s.transactions@.map_values(|t: Transaction| t@),
            s.processed_ids@,
        ));
    }
    p
}

/// Snapshot round-trip: loading listings saved from state `v` rebuilds
/// exactly `v` — every balance, every history in order, every recorded
/// transaction and every processed id — whatever order the listings came
/// in.
pub proof fn lemma_snapshot_round_trip(
    accounts: Seq<AccountV>,
    transactions: Seq<TransactionV>,
    processed: Seq<u128>,
    v: ProcessorV,
)
    requires
        snapshot_matches(accounts, transactions, processed, v),
    ensures
        rebuilt_state(accounts, transactions, processed) == v,
{
    lemma_rebuilt_accounts_match(accounts, v.ledger.accounts);
    lemma_rebuilt_transactions_match(transactions, v.transactions);
    assert(rebuilt_state(accounts, transactions, processed) =~= v);
}

} // verus!
