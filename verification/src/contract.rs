//! The storage contract: what every backend that holds records promises.

use vstd::prelude::*;
use crate::error::StoreError;
use crate::model::{is_listing, lookup, model_of, models_of, Table};
use crate::record::{Record, RecordModel};

verus! {

/// The mapping after `record` was created in `table`.
pub open spec fn after_create(table: Table, record: RecordModel) -> Table {
    table.insert(record.id, record)
}

/// The mapping after `update` was asked to put `record` under `id`: the whole
/// record is replaced where `id` is held, and nothing changes where it is not.
pub open spec fn after_update(table: Table, id: Seq<char>, record: RecordModel) -> Table {
    if table.contains_key(id) {
        table.insert(id, record)
    } else {
        table
    }
}

/// The mapping after `delete` was asked to drop `id`.
pub open spec fn after_delete(table: Table, id: Seq<char>) -> Table {
    table.remove(id)
}

/// Whether `delete` finds a record to drop under `id`.
pub open spec fn delete_finds(table: Table, id: Seq<char>) -> bool {
    table.contains_key(id)
}

/// The capability set of a storage backend for records.
///
/// A backend may fail for reasons of its own (`Internal`, `Serialization`);
/// one that never does says so with `infallible`. Whatever the backend, an
/// operation that fails leaves the records as they were.
pub trait RecordRepository {
    /// The records that the backend holds.
    spec fn table(&self) -> Table;

    /// Whether every operation succeeds but `update` of an absent identifier.
    spec fn infallible(&self) -> bool;

    /// A copy of every record, each exactly once, in an order that the
    /// backend chooses.
    fn find_all(&self) -> (result: Result<Vec<Record>, StoreError>)
        ensures
            result matches Ok(records) ==> is_listing(models_of(records@), self.table()),
            self.infallible() ==> result is Ok,
    ;

    /// A copy of the record held under `id`, or nothing.
    fn find_by_id(&self, id: &str) -> (result: Result<Option<Record>, StoreError>)
        ensures
            result matches Ok(found) ==> model_of(found) == lookup(self.table(), id@),
            self.infallible() ==> result is Ok,
    ;

    /// Stores `record` under its own identifier and hands back a copy.
    fn create(&mut self, record: Record) -> (result: Result<Record, StoreError>)
        ensures
            final(self).infallible() == old(self).infallible(),
            old(self).infallible() ==> result is Ok,
            match result {
                Ok(created) => {
                    &&& created@ == record@
                    &&& final(self).table() == after_create(old(self).table(), record@)
                },
                Err(_) => final(self).table() == old(self).table(),
            },
    ;

    /// Replaces the whole record held under `id` by `record` and hands back a
    /// copy. Fails with `NotFound` exactly when nothing is held under `id`.
    fn update(&mut self, id: &str, record: Record) -> (result: Result<Record, StoreError>)
        ensures
            final(self).infallible() == old(self).infallible(),
            final(self).table() == (if result is Ok {
                after_update(old(self).table(), id@, record@)
            } else {
                old(self).table()
            }),
            result matches Ok(updated) ==> updated@ == record@,
            result is Ok ==> old(self).table().contains_key(id@),
            !old(self).table().contains_key(id@) ==> result is Err
                && result->Err_0.is_not_found(id@),
            result matches Err(StoreError::NotFound(_)) ==> !old(self).table().contains_key(id@),
            old(self).infallible() && old(self).table().contains_key(id@) ==> result is Ok,
    ;

    /// Drops the record held under `id`; says whether there was one.
    fn delete(&mut self, id: &str) -> (result: Result<bool, StoreError>)
        ensures
            final(self).infallible() == old(self).infallible(),
            old(self).infallible() ==> result is Ok,
            match result {
                Ok(deleted) => {
                    &&& deleted == delete_finds(old(self).table(), id@)
                    &&& final(self).table() == after_delete(old(self).table(), id@)
                },
                Err(_) => final(self).table() == old(self).table(),
            },
    ;
}

} // verus!
