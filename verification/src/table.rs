//! The entry table: a hash map keyed by identifier that does not hash.
//!
//! The table is `nohash_hasher::IntMap`, std's `HashMap` with a hasher that
//! hands the integer key back as its own digest. vstd describes a `HashMap` by
//! its view, the `Map` of what it holds, but promises the behaviour of lookups
//! and updates only for the hashers it knows. For this hasher the functions
//! below state that behaviour; Verus takes their contracts on trust.

use crate::datum::DatumId;
use crate::model::DatumRefEntry;
use nohash_hasher::IntMap;
use vstd::prelude::*;

verus! {

/// `nohash_hasher::NoHashHasher`, the hasher of the table. Nothing is stated
/// of it: it is only named so that the table's type can be written.
#[verifier::external_type_specification]
#[verifier::external_body]
#[verifier::reject_recursive_types(T)]
pub struct ExNoHashHasher<T>(nohash_hasher::NoHashHasher<T>);

/// `std::hash::BuildHasherDefault`, which builds the table's hashers. Nothing
/// is stated of it either.
#[verifier::external_type_specification]
#[verifier::external_body]
#[verifier::reject_recursive_types(H)]
pub struct ExBuildHasherDefault<H>(std::hash::BuildHasherDefault<H>);

/// The entries of an arena, by identifier.
pub type DatumTable = IntMap<DatumId, DatumRefEntry>;

/// `HashMap::contains_key` on the table: whether an entry is stored under
/// `id`.
#[verifier::external_body]
pub(crate) fn table_contains_key(table: &DatumTable, id: DatumId) -> (found: bool)
    ensures
        found == table@.contains_key(id),
{
    table.contains_key(&id)
}

/// `HashMap::len` on the table: the number of entries it holds.
#[verifier::external_body]
pub(crate) fn table_len(table: &DatumTable) -> (n: usize)
    ensures
        n == table@.len(),
{
    table.len()
}

/// `HashMap::get` on the table: the entry stored under `id`, or `None` where
/// there is none.
#[verifier::external_body]
pub(crate) fn table_get(table: &DatumTable, id: DatumId) -> (found: Option<&DatumRefEntry>)
    ensures
        found == (if table@.contains_key(id) {
            Some(&table@[id])
        } else {
            None
        }),
{
    table.get(&id)
}

/// `HashMap::get_mut` on the table: exclusive access to the entry stored
/// under `id`, or `None` where there is none. Whatever the caller leaves in
/// the entry is what the table then holds under `id`; no other entry changes.
#[verifier::external_body]
pub(crate) fn table_get_mut(table: &mut DatumTable, id: DatumId) -> (found: Option<
    &mut DatumRefEntry,
>)
    ensures
        match found {
            Some(entry) => {
                &&& old(table)@.contains_key(id)
                &&& *entry == old(table)@[id]
                &&& final(table)@ == old(table)@.insert(id, *final(entry))
            },
            None => !old(table)@.contains_key(id) && final(table)@ == old(table)@,
        },
{
    table.get_mut(&id)
}

/// `HashMap::insert` on the table: `entry` is stored under `id`, in place of
/// what was stored there, which is returned.
#[verifier::external_body]
pub(crate) fn table_insert(table: &mut DatumTable, id: DatumId, entry: DatumRefEntry) -> (previous:
    Option<DatumRefEntry>)
    ensures
        final(table)@ == old(table)@.insert(id, entry),
        previous == (if old(table)@.contains_key(id) {
            Some(old(table)@[id])
        } else {
            None
        }),
{
    table.insert(id, entry)
}

/// `HashMap::remove` on the table: nothing is stored under `id` afterwards,
/// and what was stored there is returned.
#[verifier::external_body]
pub(crate) fn table_remove(table: &mut DatumTable, id: DatumId) -> (removed: Option<DatumRefEntry>)
    ensures
        final(table)@ == old(table)@.remove(id),
        removed == (if old(table)@.contains_key(id) {
            Some(old(table)@[id])
        } else {
            None
        }),
{
    table.remove(&id)
}

} // verus!
