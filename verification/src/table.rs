//! Tables from a connection's id to a byte position, kept in `dashmap::DashMap`.
//!
//! Every table is owned: whoever changes it holds `&mut`, so that what a table holds is a
//! function of the table alone. Nothing in this crate shares one.
use dashmap::DashMap;
use vstd::prelude::*;

verus! {

/// `dashmap::DashMap`, carried through as it is.
#[verifier::external_type_specification]
#[verifier::external_body]
#[verifier::reject_recursive_types(K)]
#[verifier::reject_recursive_types(V)]
#[verifier::reject_recursive_types(S)]
pub struct ExDashMap<K, V, S>(DashMap<K, V, S>);

/// The entries of a table.
pub uninterp spec fn entries(table: DashMap<u64, u64>) -> Map<u64, u64>;

/// `DashMap::new`: a table without entries.
#[verifier::external_body]
pub(crate) fn table_new() -> (r: DashMap<u64, u64>)
    ensures
        (entries(r) == Map::<u64, u64>::empty()),
{
    DashMap::new()
}

/// `DashMap::insert`: binds `id` to `position`, in place of what it was bound to.
#[verifier::external_body]
pub(crate) fn table_insert(table: &mut DashMap<u64, u64>, id: u64, position: u64)
    ensures
        entries(*final(table)) == entries(*old(table)).insert(id, position),
{
    table.insert(id, position);
}

/// `DashMap::remove`: unbinds `id`; a table without it stays as it is.
#[verifier::external_body]
pub(crate) fn table_remove(table: &mut DashMap<u64, u64>, id: u64)
    ensures
        entries(*final(table)) == entries(*old(table)).remove(id),
{
    table.remove(&id);
}

/// `DashMap::get`: what `id` is bound to.
#[verifier::external_body]
pub(crate) fn table_get(table: &DashMap<u64, u64>, id: u64) -> (r: Option<u64>)
    ensures
        r == (if entries(*table).dom().contains(id) {
            Some(entries(*table)[id])
        } else {
            None
        }),
{
    table.get(&id).map(|position| *position)
}

/// `DashMap::len`: how many ids are bound.
#[verifier::external_body]
pub(crate) fn table_len(table: &DashMap<u64, u64>) -> (r: usize)
    ensures
        has_size(entries(*table), r as nat),
{
    table.len()
}

/// `DashMap::is_empty`: whether no id is bound.
#[verifier::external_body]
pub(crate) fn table_is_empty(table: &DashMap<u64, u64>) -> (r: bool)
    ensures
        r == (entries(*table) == Map::<u64, u64>::empty()),
{
    table.is_empty()
}

/// `DashMap::iter`: every entry once, in an order that differs from table to table.
#[verifier::external_body]
pub(crate) fn table_entries(table: &DashMap<u64, u64>) -> (r: Vec<(u64, u64)>)
    ensures
        lists(r@, entries(*table)),
{
    table.iter().map(|entry| (*entry.key(), *entry.value())).collect()
}

/// `serde_json::Error`, carried through as it is.
#[verifier::external_type_specification]
#[verifier::external_body]
pub struct ExJsonError(serde_json::Error);

/// The table that a JSON text stands for, where it is one object whose keys and values are `u64`.
pub uninterp spec fn parsed_table(text: Seq<char>) -> Option<Map<u64, u64>>;

/// `serde_json::from_str` into a table: it succeeds on the texts that stand for a table, with
/// that table. Which texts those are is left to `parsed_table`.
#[verifier::external_body]
pub(crate) fn table_from_json(text: &str) -> (r: Result<DashMap<u64, u64>, serde_json::Error>)
    ensures
        parsed_table(text@) == (match r {
            Ok(table) => Some(entries(table)),
            Err(_) => None,
        }),
{
    serde_json::from_str(text)
}

/// `serde_json::to_string` of a table: a text that reads back as the same entries. The order
/// in which the text lists them differs from table to table.
#[verifier::external_body]
pub(crate) fn table_to_json(table: &DashMap<u64, u64>) -> (r: String)
    ensures
        parsed_table(r@) == Some(entries(*table)),
{
    serde_json::to_string(table).unwrap()
}

/// `map` has `n` entries.
pub open spec fn has_size(map: Map<u64, u64>, n: nat) -> bool {
    &&& map.dom().finite()
    &&& map.dom().len() == n
}

/// `list` holds each entry of `map` exactly once, in some order.
pub open spec fn lists(list: Seq<(u64, u64)>, map: Map<u64, u64>) -> bool {
    &&& forall|i: int| 0 <= i < list.len() ==> map.dom().contains((#[trigger] list[i]).0) && map[list[i].0] == list[i].1
    &&& forall|i: int, j: int| 0 <= i < j < list.len() ==> (#[trigger] list[i]).0 != (#[trigger] list[j]).0
    &&& forall|id: u64| #[trigger] map.dom().contains(id) ==> exists|i: int| 0 <= i < list.len() && (#[trigger] list[i]).0 == id
}

} // verus!
