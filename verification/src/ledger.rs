//! The ledger: the only state-mutating primitives the transaction processor
//! calls, over the account store and the processed-id set.
//!
//! Every operation is specified against the ledger's mathematical state
//! [`LedgerV`]; the transfer path follows the pair-lock protocol, acquiring
//! the two account entries in the globally consistent order given by
//! [`spec_lock_order`].

use vstd::prelude::*;
use dashmap::DashSet;
use crate::models::Account;
use crate::models::AccountV;
use crate::models::Key;
use crate::models::keys_view;
use crate::models::fresh_account_view;
use crate::store::AccountStore;
use crate::store::empty_account_map;
use crate::store::rebuilt_accounts;
use crate::sharded::id_entries;
use crate::sharded::ids_new;
use crate::sharded::ids_insert;
use crate::sharded::ids_contains;
use crate::sharded::ids_to_vec;
use crate::sharded::empty_ids;
use crate::ids::fresh_uuid;
use crate::checked_add_amount;

verus! {

/// Errors of the ledger's primitives. Every error leaves the ledger
/// unchanged.
#[derive(Debug, Clone, Copy, PartialEq, Eq, Structural)]
pub enum LedgerError {
    AccountNotFound,
    InsufficientFunds,
    ArithmeticOverflow,
    TransactionAlreadyProcessed,
}

/// Mathematical state of the ledger: the accounts by id, and the set of
/// transaction ids already applied.
#[verifier::ext_equal]
pub ghost struct LedgerV {
    pub accounts: Map<u128, AccountV>,
    pub processed: Set<u128>,
}

/// The state of an empty ledger.
pub open spec fn empty_ledger() -> LedgerV {
    LedgerV { accounts: empty_account_map(), processed: empty_ids() }
}

/// The account after `amount` left it in transaction `tx`.
pub open spec fn debit(a: AccountV, amount: u64, tx: u128) -> AccountV {
    AccountV {
        balance: (a.balance - amount) as u64,
        transaction_history: a.transaction_history.push(tx),
        ..a
    }
}

/// The account after `amount` reached it in transaction `tx`.
pub open spec fn credit(a: AccountV, amount: u64, tx: u128) -> AccountV {
    AccountV {
        balance: (a.balance + amount) as u64,
        transaction_history: a.transaction_history.push(tx),
        ..a
    }
}

/// The account after a deposit of `amount`.
pub open spec fn deposited(a: AccountV, amount: u64) -> AccountV {
    AccountV { balance: (a.balance + amount) as u64, ..a }
}

/// State and result of creating an account under the drawn id.
pub open spec fn spec_create(s: LedgerV, id: u128, keys: Seq<crate::models::KeyV>) -> LedgerV {
    LedgerV { accounts: s.accounts.insert(id, fresh_account_view(id, keys)), ..s }
}

/// State and result of a deposit.
pub open spec fn spec_deposit(s: LedgerV, id: u128, amount: u64) -> (LedgerV, Result<
    (),
    LedgerError,
>) {
    if !s.accounts.contains_key(id) {
        (s, Err(LedgerError::AccountNotFound))
    } else if s.accounts[id].balance + amount > u64::MAX {
        (s, Err(LedgerError::ArithmeticOverflow))
    } else {
        (LedgerV { accounts: s.accounts.insert(id, deposited(s.accounts[id], amount)), ..s }, Ok(()))
    }
}

/// State and result of a transfer.
///
/// A transfer to the account itself commits as a no-op: it marks the id
/// processed and touches no balance. Otherwise the two entries are
/// acquired, missing accounts fail first, then the under-lock idempotency
/// re-check, then the funds check, then overflow of the destination; the
/// commit moves the amount, appends `tx` to both histories and marks `tx`
/// processed, all under the two entries' locks.
pub open spec fn spec_transfer(
    s: LedgerV,
    tx: u128,
    src: u128,
    dst: u128,
    amount: u64,
) -> (LedgerV, Result<(), LedgerError>) {
    if src == dst {
        if s.processed.contains(tx) {
            (s, Err(LedgerError::TransactionAlreadyProcessed))
        } else {
            (LedgerV { processed: s.processed.insert(tx), ..s }, Ok(()))
        }
    } else if !s.accounts.contains_key(src) || !s.accounts.contains_key(dst) {
        (s, Err(LedgerError::AccountNotFound))
    } else if s.processed.contains(tx) {
        (s, Err(LedgerError::TransactionAlreadyProcessed))
    } else if s.accounts[src].balance < amount {
        (s, Err(LedgerError::InsufficientFunds))
    } else if s.accounts[dst].balance + amount > u64::MAX {
        (s, Err(LedgerError::ArithmeticOverflow))
    } else {
        (
            LedgerV {
                accounts: s.accounts.insert(src, debit(s.accounts[src], amount, tx)).insert(
                    dst,
                    credit(s.accounts[dst], amount, tx),
                ),
                processed: s.processed.insert(tx),
            },
            Ok(()),
        )
    }
}

/// The order in which a transfer acquires its two account entries: the
/// entry whose 16-byte id is byte-lexicographically smaller — that is,
/// numerically smaller as an unsigned 128-bit value — is always taken
/// first.
pub open spec fn spec_lock_order(a: u128, b: u128) -> (u128, u128) {
    if a <= b {
        (a, b)
    } else {
        (b, a)
    }
}

/// Deadlock freedom of the pair-lock protocol: the two directions of the
/// same account pair acquire their entries in the same global order, so a
/// transfer and its reverse can never each hold the entry the other waits
/// for; and the order always yields the pair itself, smaller id first.
pub proof fn lemma_lock_order_symmetric(a: u128, b: u128)
    ensures
        spec_lock_order(a, b) == spec_lock_order(b, a),
        spec_lock_order(a, b).0 <= spec_lock_order(a, b).1,
        spec_lock_order(a, b).0 == a || spec_lock_order(a, b).0 == b,
        spec_lock_order(a, b).1 == a || spec_lock_order(a, b).1 == b,
{
}

/// Conservation: a committed transfer between distinct accounts leaves the
/// sum of the two balances unchanged, appends the transaction id to both
/// histories, and touches no other account.
pub proof fn lemma_transfer_conservation(s: LedgerV, tx: u128, src: u128, dst: u128, amount: u64)
    requires
        src != dst,
        spec_transfer(s, tx, src, dst, amount).1 is Ok,
    ensures
        ({
            let s2 = spec_transfer(s, tx, src, dst, amount).0;
            &&& s2.accounts[src].balance + s2.accounts[dst].balance == s.accounts[src].balance
                + s.accounts[dst].balance
            &&& s2.accounts[src].balance == s.accounts[src].balance - amount
            &&& s2.accounts[dst].balance == s.accounts[dst].balance + amount
            &&& s2.accounts[src].transaction_history == s.accounts[src].transaction_history.push(tx)
            &&& s2.accounts[dst].transaction_history == s.accounts[dst].transaction_history.push(tx)
            &&& forall|id: u128|
                id != src && id != dst ==> #[trigger] s2.accounts.contains_key(id)
                    == s.accounts.contains_key(id) && (s.accounts.contains_key(id)
                    ==> s2.accounts[id] == s.accounts[id])
        }),
{
}

/// Non-negativity: a transfer that would overdraw the source account fails
/// with InsufficientFunds and leaves the whole state unchanged.
pub proof fn lemma_transfer_insufficient_funds(
    s: LedgerV,
    tx: u128,
    src: u128,
    dst: u128,
    amount: u64,
)
    requires
        src != dst,
        s.accounts.contains_key(src),
        s.accounts.contains_key(dst),
        !s.processed.contains(tx),
        s.accounts[src].balance < amount,
    ensures
        spec_transfer(s, tx, src, dst, amount).0 == s,
        spec_transfer(s, tx, src, dst, amount).1 == Err::<(), LedgerError>(
            LedgerError::InsufficientFunds,
        ),
{
}

/// Deposit monotonicity: a deposit that fits raises the target's balance
/// by exactly the requested amount, keeps its history and keys, and
/// touches no other account and no processed id.
pub proof fn lemma_deposit_exact(s: LedgerV, id: u128, amount: u64)
    requires
        s.accounts.contains_key(id),
        s.accounts[id].balance + amount <= u64::MAX,
    ensures
        spec_deposit(s, id, amount).1 is Ok,
        ({
            let s2 = spec_deposit(s, id, amount).0;
            &&& s2.accounts[id].balance == s.accounts[id].balance + amount
            &&& s2.accounts[id].transaction_history == s.accounts[id].transaction_history
            &&& s2.accounts[id].keys == s.accounts[id].keys
            &&& forall|o: u128|
                o != id ==> #[trigger] s2.accounts.contains_key(o) == s.accounts.contains_key(o)
                    && (s.accounts.contains_key(o) ==> s2.accounts[o] == s.accounts[o])
            &&& s2.processed == s.processed
        }),
{
}

/// A deposit to or a transfer touching a missing account fails with
/// AccountNotFound and leaves the whole state unchanged.
pub proof fn lemma_missing_account(s: LedgerV, tx: u128, id: u128, other: u128, amount: u64)
    requires
        !s.accounts.contains_key(id),
        id != other,
    ensures
        spec_deposit(s, id, amount).0 == s,
        spec_deposit(s, id, amount).1 == Err::<(), LedgerError>(LedgerError::AccountNotFound),
        spec_transfer(s, tx, id, other, amount).0 == s,
        spec_transfer(s, tx, id, other, amount).1 == Err::<(), LedgerError>(
            LedgerError::AccountNotFound,
        ),
        spec_transfer(s, tx, other, id, amount).0 == s,
        spec_transfer(s, tx, other, id, amount).1 == Err::<(), LedgerError>(
            LedgerError::AccountNotFound,
        ),
{
}

/// Idempotency at the ledger: a transfer whose transaction id is already
/// processed fails with TransactionAlreadyProcessed and changes nothing.
pub proof fn lemma_transfer_already_processed(
    s: LedgerV,
    tx: u128,
    src: u128,
    dst: u128,
    amount: u64,
)
    requires
        s.processed.contains(tx),
        src == dst || (s.accounts.contains_key(src) && s.accounts.contains_key(dst)),
    ensures
        spec_transfer(s, tx, src, dst, amount).0 == s,
        spec_transfer(s, tx, src, dst, amount).1 == Err::<(), LedgerError>(
            LedgerError::TransactionAlreadyProcessed,
        ),
{
}

/// A committed transfer marks its transaction id processed, so a repeat of
/// the same id can no longer commit.
pub proof fn lemma_transfer_marks_processed(s: LedgerV, tx: u128, src: u128, dst: u128, amount: u64)
    requires
        spec_transfer(s, tx, src, dst, amount).1 is Ok,
    ensures
        spec_transfer(s, tx, src, dst, amount).0.processed.contains(tx),
{
}

/// The ledger: accounts under a sharded per-entry-locked store, and the
/// processed-transaction-id set that closes the idempotency gate.
pub struct Ledger {
    accounts: AccountStore,
    processed_transactions: DashSet<u128>,
}

impl View for Ledger {
    type V = LedgerV;

    closed spec fn view(&self) -> LedgerV {
        LedgerV { accounts: self.accounts@, processed: id_entries(self.processed_transactions) }
    }
}

impl Ledger {
    pub closed spec fn wf(&self) -> bool {
        self.accounts.wf()
    }

    pub fn new() -> (l: Ledger)
        ensures
            l.wf(),
            l@ == empty_ledger(),
    {
        let l = Ledger { accounts: AccountStore::new(), processed_transactions: ids_new() };
        proof {
            assert(l@ =~= empty_ledger());
        }
        l
    }

    /// Creates a new account with the given keys under a freshly drawn id
    /// and returns the id.
    pub fn create_account(&mut self, keys: Vec<Key>) -> (r: Result<u128, LedgerError>)
        requires
            old(self).wf(),
        ensures
            final(self).wf(),
            r is Ok,
            r matches Ok(id) ==> final(self)@ == spec_create(old(self)@, id, keys_view(keys@)),
    {
        let id = fresh_uuid();
        let account = Account::new(id, keys);
        self.accounts.insert(account);
        proof {
            assert(self@ =~= spec_create(old(self)@, id, keys_view(account.keys@)));
        }
        Ok(id)
    }

    /// A detached copy of the account under `id`, for read-only use.
    pub fn get_account(&self, id: u128) -> (r: Result<Account, LedgerError>)
        requires
            self.wf(),
        ensures
            r is Ok <==> self@.accounts.contains_key(id),
            r matches Ok(a) ==> a@ == self@.accounts[id] && a.uuid == id,
            r matches Err(e) ==> e == LedgerError::AccountNotFound,
    {
        match self.accounts.get_clone(id) {
            Some(a) => Ok(a),
            None => Err(LedgerError::AccountNotFound),
        }
    }

    /// Adds `amount` to the account's balance under the entry's exclusive
    /// lock, checked for overflow.
    pub fn deposit_into_account(&mut self, account_id: u128, amount: u64) -> (r: Result<
        (),
        LedgerError,
    >)
        requires
            old(self).wf(),
        ensures
            final(self).wf(),
            final(self)@ == spec_deposit(old(self)@, account_id, amount).0,
            r == spec_deposit(old(self)@, account_id, amount).1,
    {
        let mut account = match self.accounts.get_clone(account_id) {
            Some(a) => a,
            None => {
                return Err(LedgerError::AccountNotFound);
            },
        };
        match checked_add_amount(account.balance, amount) {
            Some(nb) => {
                account.balance = nb;
                proof {
                    assert(account@ =~= deposited(old(self)@.accounts[account_id], amount));
                }
                self.accounts.insert(account);
                proof {
                    assert(self@ =~= spec_deposit(old(self)@, account_id, amount).0);
                }
                Ok(())
            },
            None => Err(LedgerError::ArithmeticOverflow),
        }
    }

    /// Atomically moves `amount` between the two accounts, appends the
    /// transaction id to both histories and marks it processed; the two
    /// entries are acquired in the order of [`spec_lock_order`].
    pub fn transfer(
        &mut self,
        transaction_id: u128,
        source_id: u128,
        dest_id: u128,
        amount: u64,
    ) -> (r: Result<(), LedgerError>)
        requires
            old(self).wf(),
        ensures
            final(self).wf(),
            final(self)@ == spec_transfer(old(self)@, transaction_id, source_id, dest_id, amount).0,
            r == spec_transfer(old(self)@, transaction_id, source_id, dest_id, amount).1,
    {
        if source_id == dest_id {
            if ids_contains(&self.processed_transactions, transaction_id) {
                return Err(LedgerError::TransactionAlreadyProcessed);
            }
            ids_insert(&mut self.processed_transactions, transaction_id);
            proof {
                assert(self@ =~= spec_transfer(
                    old(self)@,
                    transaction_id,
                    source_id,
                    dest_id,
                    amount,
                ).0);
            }
            return Ok(());
        }
        // Acquire the two entries in the globally consistent order: the
        // byte-lexicographically smaller id first.
        let first = if source_id <= dest_id {
            source_id
        } else {
            dest_id
        };
        let second = if source_id <= dest_id {
            dest_id
        } else {
            source_id
        };
        proof {
            assert((first, second) == spec_lock_order(source_id, dest_id));
        }
        let first_account = self.accounts.get_clone(first);
        let second_account = self.accounts.get_clone(second);
        let (src_opt, dst_opt) = if first == source_id {
            (first_account, second_account)
        } else {
            (second_account, first_account)
        };
        let mut source = match src_opt {
            Some(a) => a,
            None => {
                return Err(LedgerError::AccountNotFound);
            },
        };
        let mut dest = match dst_opt {
            Some(a) => a,
            None => {
                return Err(LedgerError::AccountNotFound);
            },
        };
        if ids_contains(&self.processed_transactions, transaction_id) {
            return Err(LedgerError::TransactionAlreadyProcessed);
        }
        if source.balance < amount {
            return Err(LedgerError::InsufficientFunds);
        }
        let new_dest_balance = match checked_add_amount(dest.balance, amount) {
            Some(nb) => nb,
            None => {
                return Err(LedgerError::ArithmeticOverflow);
            },
        };
        source.balance = source.balance - amount;
        source.transaction_history.push(transaction_id);
        dest.balance = new_dest_balance;
        dest.transaction_history.push(transaction_id);
        proof {
            assert(source@ =~= debit(old(self)@.accounts[source_id], amount, transaction_id));
            assert(dest@ =~= credit(old(self)@.accounts[dest_id], amount, transaction_id));
        }
        self.accounts.insert(source);
        self.accounts.insert(dest);
        ids_insert(&mut self.processed_transactions, transaction_id);
        proof {
            assert(self@ =~= spec_transfer(
                old(self)@,
                transaction_id,
                source_id,
                dest_id,
                amount,
            ).0);
        }
        Ok(())
    }

    /// Whether the transaction id has already been applied.
    pub fn is_transaction_processed(&self, transaction_id: u128) -> (r: Result<bool, LedgerError>)
        requires
            self.wf(),
        ensures
            r is Ok,
            r matches Ok(b) ==> b == self@.processed.contains(transaction_id),
    {
        Ok(ids_contains(&self.processed_transactions, transaction_id))
    }

    /// Closes the idempotency gate for a non-transfer instruction.
    pub fn mark_transaction_processed(&mut self, transaction_id: u128) -> (r: Result<
        (),
        LedgerError,
    >)
        requires
            old(self).wf(),
        ensures
            final(self).wf(),
            r is Ok,
            final(self)@.accounts == old(self)@.accounts,
            final(self)@.processed == old(self)@.processed.insert(transaction_id),
    {
        ids_insert(&mut self.processed_transactions, transaction_id);
        Ok(())
    }

    /// Rebuilds a ledger from snapshot listings: the accounts in listing
    /// order, later entries of a same id overriding earlier ones, and the
    /// processed-id set from its listing.
    pub fn restore(accounts: &Vec<Account>, processed_ids: &Vec<u128>) -> (l: Ledger)
        ensures
            l.wf(),
            l@.accounts == rebuilt_accounts(accounts@.map_values(|a: Account| a@)),
            l@.processed == processed_ids@.to_set(),
    {
        let ghost entries = accounts@.map_values(|a: Account| a@);
        let mut store = AccountStore::new();
        let n = accounts.len();
        for i in 0..n
            invariant
                n == accounts@.len(),
                entries == accounts@.map_values(|a: Account| a@),
                store.wf(),
                store@ == rebuilt_accounts(entries.subrange(0, i as int)),
        {
            let a = accounts[i].clone();
            store.insert(a);
            proof {
                let sub1 = entries.subrange(0, i + 1);
                assert(sub1.drop_last() =~= entries.subrange(0, i as int));
                assert(sub1.last() == entries[i as int]);
                assert(store@ =~= rebuilt_accounts(sub1));
            }
        }
        proof {
            assert(entries.subrange(0, n as int) =~= entries);
        }
        let mut processed = ids_new();
        let ghost id_seq = processed_ids@;
        let m = processed_ids.len();
        for i in 0..m
            invariant
                m == id_seq.len(),
                id_seq == processed_ids@,
                id_entries(processed) == id_seq.subrange(0, i as int).to_set(),
        {
            ids_insert(&mut processed, processed_ids[i]);
            proof {
                let sub0 = id_seq.subrange(0, i as int);
                let sub1 = id_seq.subrange(0, i + 1);
                assert forall|x: u128| sub1.to_set().contains(x) implies sub0.to_set().insert(
                    id_seq[i as int],
                ).contains(x) by {
                    let j = choose|j: int| 0 <= j < sub1.len() && sub1[j] == x;
                    if j < i {
                        assert(sub0[j] == x);
                    }
                }
                assert forall|x: u128|
                    sub0.to_set().insert(id_seq[i as int]).contains(x) implies sub1.to_set().contains(
                    x,
                ) by {
                    if sub0.to_set().contains(x) {
                        let j = choose|j: int| 0 <= j < sub0.len() && sub0[j] == x;
                        assert(sub1[j] == x);
                    } else {
                        assert(sub1[i as int] == x);
                    }
                }
                assert(sub1.to_set() =~= sub0.to_set().insert(id_seq[i as int]));
            }
        }
        proof {
            assert(id_seq.subrange(0, m as int) =~= id_seq);
        }
        let l = Ledger { accounts: store, processed_transactions: processed };
        l
    }

    /// How many accounts the ledger holds.
    pub fn account_count(&self) -> (r: usize)
        requires
            self.wf(),
        ensures
            r == self@.accounts.dom().len(),
    {
        self.accounts.count()
    }

    /// A coherent read pass over all accounts, for snapshotting.
    pub fn export_accounts(&self) -> (r: Vec<Account>)
        requires
            self.wf(),
        ensures
            crate::store::account_entries_match(r@.map_values(|a: Account| a@), self@.accounts),
    {
        self.accounts.export()
    }

    /// The processed transaction ids, each exactly once, in no fixed order.
    pub fn export_processed(&self) -> (r: Vec<u128>)
        requires
            self.wf(),
        ensures
            r@.to_set() == self@.processed,
            r@.no_duplicates(),
    {
        ids_to_vec(&self.processed_transactions)
    }
}

impl Default for Ledger {
    fn default() -> (l: Ledger)
        ensures
            l.wf(),
            l@ == empty_ledger(),
    {
        Ledger::new()
    }
}

} // verus!
