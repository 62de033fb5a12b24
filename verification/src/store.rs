//! Verified stores over the sharded index maps: the account store and the
//! transaction store. Each keeps its entries in slots and lets a sharded
//! concurrent map carry the id-to-slot index, so lookups go through a
//! per-entry lock rather than a lock over the whole store. The store's view
//! is the map from id to the entry's mathematical value.

use vstd::prelude::*;
use crate::models::Account;
use crate::models::AccountV;
use crate::models::Transaction;
use crate::models::TransactionV;
use crate::sharded::IndexMap;
use crate::sharded::index_entries;
use crate::sharded::index_new;
use crate::sharded::index_insert;
use crate::sharded::index_get;

verus! {

/// The contents of an empty account store.
pub open spec fn empty_account_map() -> Map<u128, AccountV> {
    Map::empty()
}

/// The contents of an empty transaction store.
pub open spec fn empty_transaction_map() -> Map<u128, TransactionV> {
    Map::empty()
}

/// `entries` lists each association of `m` exactly once, keyed by `uuid`,
/// in some order.
pub open spec fn account_entries_match(entries: Seq<AccountV>, m: Map<u128, AccountV>) -> bool {
    &&& entries.map_values(|a: AccountV| a.uuid).no_duplicates()
    &&& forall|i: int| #![trigger entries[i]] 0 <= i < entries.len()
        ==> m.contains_key(entries[i].uuid) && m[entries[i].uuid] == entries[i]
    &&& forall|id: u128| #[trigger] m.contains_key(id)
        ==> exists|i: int| 0 <= i < entries.len() && #[trigger] entries[i].uuid == id
}

/// `entries` lists each association of `m` exactly once, keyed by `id`,
/// in some order.
pub open spec fn transaction_entries_match(
    entries: Seq<TransactionV>,
    m: Map<u128, TransactionV>,
) -> bool {
    &&& entries.map_values(|t: TransactionV| t.id).no_duplicates()
    &&& forall|i: int| #![trigger entries[i]] 0 <= i < entries.len()
        ==> m.contains_key(entries[i].id) && m[entries[i].id] == entries[i]
    &&& forall|id: u128| #[trigger] m.contains_key(id)
        ==> exists|i: int| 0 <= i < entries.len() && #[trigger] entries[i].id == id
}

/// The map a sequence of account values rebuilds to, later entries
/// overriding earlier ones of the same id.
pub open spec fn rebuilt_accounts(entries: Seq<AccountV>) -> Map<u128, AccountV>
    decreases entries.len(),
{
    if entries.len() == 0 {
        Map::empty()
    } else {
        rebuilt_accounts(entries.drop_last()).insert(entries.last().uuid, entries.last())
    }
}

/// The map a sequence of transaction values rebuilds to, later entries
/// overriding earlier ones of the same id.
pub open spec fn rebuilt_transactions(entries: Seq<TransactionV>) -> Map<u128, TransactionV>
    decreases entries.len(),
{
    if entries.len() == 0 {
        Map::empty()
    } else {
        rebuilt_transactions(entries.drop_last()).insert(entries.last().id, entries.last())
    }
}

/// A listing of a map rebuilds to exactly that map.
pub proof fn lemma_rebuilt_accounts_match(entries: Seq<AccountV>, m: Map<u128, AccountV>)
    requires
        account_entries_match(entries, m),
    ensures
        rebuilt_accounts(entries) == m,
    decreases entries.len(),
{
    let ids = entries.map_values(|a: AccountV| a.uuid);
    if entries.len() == 0 {
        assert forall|id: u128| !(#[trigger] m.contains_key(id)) by {
            if m.contains_key(id) {
                let i = choose|i: int| 0 <= i < entries.len() && entries[i].uuid == id;
            }
        }
        assert(rebuilt_accounts(entries) =~= m);
    } else {
        let last = entries.last();
        let rest = entries.drop_last();
        let m2 = m.remove(last.uuid);
        let rest_ids = rest.map_values(|a: AccountV| a.uuid);
        assert forall|i: int, j: int|
            0 <= i < rest_ids.len() && 0 <= j < rest_ids.len() && i != j implies rest_ids[i]
            != rest_ids[j] by {
            assert(ids[i] == rest_ids[i]);
            assert(ids[j] == rest_ids[j]);
        }
        assert(rest_ids.no_duplicates());
        assert forall|i: int| #![trigger rest[i]] 0 <= i < rest.len() implies m2.contains_key(
            rest[i].uuid,
        ) && m2[rest[i].uuid] == rest[i] by {
            assert(entries[i] == rest[i]);
            assert(ids[i] == rest[i].uuid && ids[entries.len() - 1] == last.uuid);
            assert(rest[i].uuid != last.uuid);
        }
        assert forall|id: u128| #[trigger] m2.contains_key(id) implies exists|i: int|
            0 <= i < rest.len() && #[trigger] rest[i].uuid == id by {
            let i = choose|i: int| 0 <= i < entries.len() && #[trigger] entries[i].uuid == id;
            assert(id != last.uuid);
            assert(i < rest.len());
            assert(rest[i].uuid == id);
        }
        lemma_rebuilt_accounts_match(rest, m2);
        assert(m.contains_key(last.uuid) && m[last.uuid] == last) by {
            assert(entries[entries.len() - 1] == last);
        }
        assert(rebuilt_accounts(entries) =~= m);
    }
}

/// A listing of a map rebuilds to exactly that map.
pub proof fn lemma_rebuilt_transactions_match(entries: Seq<TransactionV>, m: Map<u128, TransactionV>)
    requires
        transaction_entries_match(entries, m),
    ensures
        rebuilt_transactions(entries) == m,
    decreases entries.len(),
{
    let ids = entries.map_values(|t: TransactionV| t.id);
    if entries.len() == 0 {
        assert forall|id: u128| !(#[trigger] m.contains_key(id)) by {
            if m.contains_key(id) {
                let i = choose|i: int| 0 <= i < entries.len() && entries[i].id == id;
            }
        }
        assert(rebuilt_transactions(entries) =~= m);
    } else {
        let last = entries.last();
        let rest = entries.drop_last();
        let m2 = m.remove(last.id);
        let rest_ids = rest.map_values(|t: TransactionV| t.id);
        assert forall|i: int, j: int|
            0 <= i < rest_ids.len() && 0 <= j < rest_ids.len() && i != j implies rest_ids[i]
            != rest_ids[j] by {
            assert(ids[i] == rest_ids[i]);
            assert(ids[j] == rest_ids[j]);
        }
        assert(rest_ids.no_duplicates());
        assert forall|i: int| #![trigger rest[i]] 0 <= i < rest.len() implies m2.contains_key(
            rest[i].id,
        ) && m2[rest[i].id] == rest[i] by {
            assert(entries[i] == rest[i]);
            assert(ids[i] == rest[i].id && ids[entries.len() - 1] == last.id);
            assert(rest[i].id != last.id);
        }
        assert forall|id: u128| #[trigger] m2.contains_key(id) implies exists|i: int|
            0 <= i < rest.len() && #[trigger] rest[i].id == id by {
            let i = choose|i: int| 0 <= i < entries.len() && #[trigger] entries[i].id == id;
            assert(id != last.id);
            assert(i < rest.len());
            assert(rest[i].id == id);
        }
        lemma_rebuilt_transactions_match(rest, m2);
        assert(m.contains_key(last.id) && m[last.id] == last) by {
            assert(entries[entries.len() - 1] == last);
        }
        assert(rebuilt_transactions(entries) =~= m);
    }
}

/// Map from account id to account, with per-entry locking on the index.
pub struct AccountStore {
    index: IndexMap,
    slots: Vec<Account>,
}

impl AccountStore {
    /// The id of each slot, in slot order.
    pub closed spec fn ids(&self) -> Seq<u128> {
        self.slots@.map_values(|a: Account| a.uuid)
    }

    /// The index maps exactly the slot ids, each to its own slot.
    pub closed spec fn wf(&self) -> bool {
        &&& forall|id: u128| #[trigger] index_entries(self.index).contains_key(id)
            ==> index_entries(self.index)[id] < self.slots@.len()
                && self.slots@[index_entries(self.index)[id] as int].uuid == id
        &&& forall|i: int| #![trigger self.slots@[i]] 0 <= i < self.slots@.len()
            ==> index_entries(self.index).contains_key(self.slots@[i].uuid)
                && index_entries(self.index)[self.slots@[i].uuid] == i
    }

    pub fn new() -> (s: Self)
        ensures
            s.wf(),
            s@ == empty_account_map(),
    {
        let s = AccountStore { index: index_new(), slots: Vec::new() };
        proof {
            assert(s@ =~= empty_account_map());
        }
        s
    }

    pub fn contains(&self, id: u128) -> (r: bool)
        requires
            self.wf(),
        ensures
            r == self@.contains_key(id),
    {
        index_get(&self.index, id).is_some()
    }

    /// A detached copy of the account under `id`, if any.
    pub fn get_clone(&self, id: u128) -> (r: Option<Account>)
        requires
            self.wf(),
        ensures
            r matches Some(a) ==> self@.contains_key(id) && a@ == self@[id] && a.uuid == id,
            r is None ==> !self@.contains_key(id),
    {
        match index_get(&self.index, id) {
            Some(i) => {
                let a = self.slots[i].clone();
                Some(a)
            },
            None => None,
        }
    }

    /// Inserts the account under its own id, replacing any account that
    /// already carries that id.
    pub fn insert(&mut self, account: Account)
        requires
            old(self).wf(),
        ensures
            final(self).wf(),
            final(self)@ == old(self)@.insert(account.uuid, account@),
    {
        let id = account.uuid;
        let ghost prev = *self;
        match index_get(&self.index, id) {
            Some(i) => {
                let ghost a_view = account@;
                self.slots.set(i, account);
                proof {
                    assert forall|k: u128| #[trigger]
                        index_entries(self.index).contains_key(k) implies index_entries(
                        self.index,
                    )[k] < self.slots@.len() && self.slots@[index_entries(self.index)[k] as int].uuid
                        == k by {
                        if index_entries(self.index)[k] == i {
                            assert(prev.slots@[i as int].uuid == k);
                        }
                    }
                    assert(self.wf());
                    assert(self@ =~= prev@.insert(id, a_view));
                }
            },
            None => {
                let n = self.slots.len();
                let ghost a_view = account@;
                self.slots.push(account);
                index_insert(&mut self.index, id, n);
                proof {
                    assert forall|i: int| 0 <= i < self.slots@.len() implies index_entries(
                        self.index,
                    ).contains_key(#[trigger] self.slots@[i].uuid) && index_entries(self.index)[self.slots@[i].uuid]
                        == i by {
                        if i < n {
                            assert(prev.slots@[i] == self.slots@[i]);
                            assert(prev.slots@[i].uuid != id);
                        }
                    }
                    assert(self.wf());
                    assert(self@ =~= prev@.insert(id, a_view));
                }
            },
        }
    }

    /// How many accounts the store holds.
    pub fn count(&self) -> (r: usize)
        requires
            self.wf(),
        ensures
            r == self@.dom().len(),
    {
        proof {
            let ids = self.ids();
            assert forall|i: int, j: int|
                0 <= i < ids.len() && 0 <= j < ids.len() && i != j implies ids[i] != ids[j] by {
                assert(index_entries(self.index)[self.slots@[i].uuid] == i);
                assert(index_entries(self.index)[self.slots@[j].uuid] == j);
            }
            assert(ids.no_duplicates());
            ids.unique_seq_to_set();
            assert forall|id: u128| self@.dom().contains(id) implies ids.to_set().contains(
                id,
            ) by {
                let i = index_entries(self.index)[id] as int;
                assert(ids[i] == id);
            }
            assert(self@.dom() =~= ids.to_set());
        }
        self.slots.len()
    }

    /// A coherent pass over all entries, for snapshotting.
    pub fn export(&self) -> (r: Vec<Account>)
        requires
            self.wf(),
        ensures
            account_entries_match(r@.map_values(|a: Account| a@), self@),
    {
        let mut r: Vec<Account> = Vec::new();
        let n = self.slots.len();
        for i in 0..n
            invariant
                n == self.slots@.len(),
                r@.len() == i,
                forall|j: int| #![trigger r@[j]] 0 <= j < i ==> r@[j]@ == self.slots@[j]@,
                self.wf(),
        {
            r.push(self.slots[i].clone());
        }
        proof {
            let entries = r@.map_values(|a: Account| a@);
            let ids = entries.map_values(|a: AccountV| a.uuid);
            assert forall|i: int, j: int|
                0 <= i < ids.len() && 0 <= j < ids.len() && i != j implies ids[i] != ids[j] by {
                assert(index_entries(self.index)[self.slots@[i].uuid] == i);
                assert(index_entries(self.index)[self.slots@[j].uuid] == j);
            }
            assert(ids.no_duplicates());
            assert forall|id: u128| #[trigger] self@.contains_key(id) implies exists|i: int|
                0 <= i < entries.len() && #[trigger] entries[i].uuid == id by {
                let i = index_entries(self.index)[id] as int;
                assert(entries[i].uuid == id);
            }
        }
        r
    }
}

/// Map from transaction id to the recorded transaction, with per-entry
/// locking on the index.
pub struct TransactionStore {
    index: IndexMap,
    slots: Vec<Transaction>,
}

impl TransactionStore {
    /// The index maps exactly the slot ids, each to its own slot.
    pub closed spec fn wf(&self) -> bool {
        &&& forall|id: u128| #[trigger] index_entries(self.index).contains_key(id)
            ==> index_entries(self.index)[id] < self.slots@.len()
                && self.slots@[index_entries(self.index)[id] as int].id == id
        &&& forall|i: int| #![trigger self.slots@[i]] 0 <= i < self.slots@.len()
            ==> index_entries(self.index).contains_key(self.slots@[i].id)
                && index_entries(self.index)[self.slots@[i].id] == i
    }

    pub fn new() -> (s: Self)
        ensures
            s.wf(),
            s@ == empty_transaction_map(),
    {
        let s = TransactionStore { index: index_new(), slots: Vec::new() };
        proof {
            assert(s@ =~= empty_transaction_map());
        }
        s
    }

    /// A detached copy of the recorded transaction under `id`, if any.
    pub fn get_clone(&self, id: u128) -> (r: Option<Transaction>)
        requires
            self.wf(),
        ensures
            r matches Some(t) ==> self@.contains_key(id) && t@ == self@[id] && t.id == id,
            r is None ==> !self@.contains_key(id),
    {
        match index_get(&self.index, id) {
            Some(i) => {
                let t = self.slots[i].clone();
                Some(t)
            },
            None => None,
        }
    }

    /// Records the transaction under its own id, replacing any record that
    /// already carries that id.
    pub fn insert(&mut self, transaction: Transaction)
        requires
            old(self).wf(),
        ensures
            final(self).wf(),
            final(self)@ == old(self)@.insert(transaction.id, transaction@),
    {
        let id = transaction.id;
        let ghost prev = *self;
        match index_get(&self.index, id) {
            Some(i) => {
                let ghost t_view = transaction@;
                self.slots.set(i, transaction);
                proof {
                    assert forall|k: u128| #[trigger]
                        index_entries(self.index).contains_key(k) implies index_entries(
                        self.index,
                    )[k] < self.slots@.len() && self.slots@[index_entries(self.index)[k] as int].id
                        == k by {
                        if index_entries(self.index)[k] == i {
                            assert(prev.slots@[i as int].id == k);
                        }
                    }
                    assert(self.wf());
                    assert(self@ =~= prev@.insert(id, t_view));
                }
            },
            None => {
                let n = self.slots.len();
                let ghost t_view = transaction@;
                self.slots.push(transaction);
                index_insert(&mut self.index, id, n);
                proof {
                    assert forall|i: int| 0 <= i < self.slots@.len() implies index_entries(
                        self.index,
                    ).contains_key(#[trigger] self.slots@[i].id) && index_entries(self.index)[self.slots@[i].id]
                        == i by {
                        if i < n {
                            assert(prev.slots@[i] == self.slots@[i]);
                            assert(prev.slots@[i].id != id);
                        }
                    }
                    assert(self.wf());
                    assert(self@ =~= prev@.insert(id, t_view));
                }
            },
        }
    }

    /// A coherent pass over all entries, for snapshotting.
    pub fn export(&self) -> (r: Vec<Transaction>)
        requires
            self.wf(),
        ensures
            transaction_entries_match(r@.map_values(|t: Transaction| t@), self@),
    {
        let mut r: Vec<Transaction> = Vec::new();
        let n = self.slots.len();
        for i in 0..n
            invariant
                n == self.slots@.len(),
                r@.len() == i,
                forall|j: int| #![trigger r@[j]] 0 <= j < i ==> r@[j]@ == self.slots@[j]@,
                self.wf(),
        {
            r.push(self.slots[i].clone());
        }
        proof {
            let entries = r@.map_values(|t: Transaction| t@);
            let ids = entries.map_values(|t: TransactionV| t.id);
            assert forall|i: int, j: int|
                0 <= i < ids.len() && 0 <= j < ids.len() && i != j implies ids[i] != ids[j] by {
                assert(index_entries(self.index)[self.slots@[i].id] == i);
                assert(index_entries(self.index)[self.slots@[j].id] == j);
            }
            assert(ids.no_duplicates());
            assert forall|id: u128| #[trigger] self@.contains_key(id) implies exists|i: int|
                0 <= i < entries.len() && #[trigger] entries[i].id == id by {
                let i = index_entries(self.index)[id] as int;
                assert(entries[i].id == id);
            }
        }
        r
    }
}

impl View for AccountStore {
    type V = Map<u128, AccountV>;

    closed spec fn view(&self) -> Map<u128, AccountV> {
        Map::new(
            |id: u128| index_entries(self.index).contains_key(id),
            |id: u128| self.slots@[index_entries(self.index)[id] as int]@,
        )
    }
}

impl View for TransactionStore {
    type V = Map<u128, TransactionV>;

    closed spec fn view(&self) -> Map<u128, TransactionV> {
        Map::new(
            |id: u128| index_entries(self.index).contains_key(id),
            |id: u128| self.slots@[index_entries(self.index)[id] as int]@,
        )
    }
}

} // verus!
