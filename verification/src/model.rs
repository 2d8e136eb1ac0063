//! The mathematical model that every contract of the store, the storage
//! contract and the service is stated over.

use vstd::prelude::*;
use crate::record::{Record, RecordModel};

verus! {

/// The authoritative mapping from identifier to record.
pub type Table = Map<Seq<char>, RecordModel>;

/// The record held under `id`, if there is one.
pub open spec fn lookup(table: Table, id: Seq<char>) -> Option<RecordModel> {
    if table.contains_key(id) {
        Some(table[id])
    } else {
        None
    }
}

/// The model of an optional record.
pub open spec fn model_of(found: Option<Record>) -> Option<RecordModel> {
    match found {
        Some(record) => Some(record@),
        None => None,
    }
}

/// The models of a sequence of records, in order.
pub open spec fn models_of(records: Seq<Record>) -> Seq<RecordModel> {
    records.map_values(|r: Record| r@)
}

/// `records[i]` is what `table` holds under `keys[i]`, and `keys` names every
/// identifier of `table` exactly once.
pub open spec fn listed_under(
    keys: Seq<Seq<char>>,
    records: Seq<RecordModel>,
    table: Table,
) -> bool {
    &&& keys.len() == records.len()
    &&& keys.no_duplicates()
    &&& keys.to_set() == table.dom()
    &&& forall|i: int| 0 <= i < keys.len() ==> records[i] == table[#[trigger] keys[i]]
}

/// `records` holds every record of `table` exactly once, in some order.
pub open spec fn is_listing(records: Seq<RecordModel>, table: Table) -> bool {
    exists|keys: Seq<Seq<char>>| listed_under(keys, records, table)
}

} // verus!
