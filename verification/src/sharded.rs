//! Trusted layer over the sharded concurrent containers of the `dashmap`
//! crate. The engine keeps its account and transaction slots in verified
//! vectors and lets a sharded map carry the id-to-slot index, so unrelated
//! entries are reached without a global lock; the processed-id set is a
//! sharded set. Everything the engine relies on about these containers is
//! stated here, over the two content functions `index_entries` and
//! `id_entries`.

use vstd::prelude::*;
use dashmap::DashMap;
use dashmap::DashSet;

verus! {

#[verifier::external_type_specification]
#[verifier::external_body]
#[verifier::reject_recursive_types(K)]
#[verifier::reject_recursive_types(V)]
#[verifier::reject_recursive_types(S)]
pub struct ExDashMap<K, V, S>(DashMap<K, V, S>);

#[verifier::external_type_specification]
#[verifier::external_body]
#[verifier::reject_recursive_types(K)]
#[verifier::reject_recursive_types(S)]
pub struct ExDashSet<K, S>(DashSet<K, S>);

/// A sharded map from a 128-bit id to the slot that holds the entry.
pub type IndexMap = DashMap<u128, usize>;

/// The id-to-slot associations a sharded index map holds.
pub uninterp spec fn index_entries(m: IndexMap) -> Map<u128, usize>;

/// The contents of a freshly created index map.
pub open spec fn empty_index() -> Map<u128, usize> {
    Map::empty()
}

/// The contents of a freshly created id set.
pub open spec fn empty_ids() -> Set<u128> {
    Set::empty()
}

/// The set of ids a sharded id set holds.
pub uninterp spec fn id_entries(s: DashSet<u128>) -> Set<u128>;

/// Relies on dashmap::DashMap::new: the new map is empty.
#[verifier::external_body]
pub(crate) fn index_new() -> (m: IndexMap)
    ensures
        index_entries(m) == empty_index(),
{
    DashMap::new()
}

/// Relies on dashmap::DashMap::insert: the key now maps to the value, under
/// the entry's exclusive lock; every other association is kept.
#[verifier::external_body]
pub(crate) fn index_insert(m: &mut IndexMap, key: u128, value: usize)
    ensures
        index_entries(*final(m)) == index_entries(*old(m)).insert(key, value),
{
    m.insert(key, value);
}

/// Relies on dashmap::DashMap::get: the value the key maps to, if any.
#[verifier::external_body]
pub(crate) fn index_get(m: &IndexMap, key: u128) -> (r: Option<usize>)
    ensures
        r matches Some(v) ==> index_entries(*m).contains_key(key) && index_entries(*m)[key] == v,
        r is None ==> !index_entries(*m).contains_key(key),
{
    m.get(&key).map(|entry| *entry.value())
}

/// Relies on dashmap::DashSet::new: the new set is empty.
#[verifier::external_body]
pub(crate) fn ids_new() -> (s: DashSet<u128>)
    ensures
        id_entries(s) == empty_ids(),
{
    DashSet::new()
}

/// Relies on dashmap::DashSet::insert: the id is added under its entry's
/// exclusive lock; the result says whether it was absent before.
#[verifier::external_body]
pub(crate) fn ids_insert(s: &mut DashSet<u128>, id: u128) -> (r: bool)
    ensures
        id_entries(*final(s)) == id_entries(*old(s)).insert(id),
        r == !id_entries(*old(s)).contains(id),
{
    s.insert(id)
}

/// Relies on dashmap::DashSet::contains: membership, on the lock-free read
/// path.
#[verifier::external_body]
pub(crate) fn ids_contains(s: &DashSet<u128>, id: u128) -> (r: bool)
    ensures
        r == id_entries(*s).contains(id),
{
    s.contains(&id)
}

/// Relies on dashmap::DashSet::iter: a coherent read pass that yields each
/// held id exactly once, in no fixed order.
#[verifier::external_body]
pub(crate) fn ids_to_vec(s: &DashSet<u128>) -> (r: Vec<u128>)
    ensures
        r@.to_set() == id_entries(*s),
        r@.no_duplicates(),
{
    s.iter().map(|entry| *entry.key()).collect()
}

} // verus!
