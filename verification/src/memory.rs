//! The backend that keeps its records in memory.

use vstd::prelude::*;
use crate::contract::RecordRepository;
use crate::error::StoreError;
use crate::model::Table;
use crate::record::{Record, RecordModel};
use crate::store::RecordStore;

verus! {

/// A backend on top of a [`RecordStore`]. It checks nothing but whether the
/// identifier of an `update` is held, and never fails on its own account.
///
/// Reads take `&self` and writes `&mut self`: any number of readers may work
/// side by side, and a writer works alone. Each operation is one step on the
/// mapping, so callers that share a backend behind a lock see the steps of
/// all of them in one order.
pub struct InMemoryRepository {
    store: RecordStore,
}

impl InMemoryRepository {
    /// A backend that holds no record.
    pub fn new() -> (repository: Self)
        ensures
            repository.table() == Map::<Seq<char>, RecordModel>::empty(),
    {
        InMemoryRepository { store: RecordStore::new() }
    }

    /// The number of records held.
    pub fn len(&self) -> (count: usize)
        ensures
            self.table().dom().finite(),
            count == self.table().len(),
    {
        self.store.len()
    }
}

impl RecordRepository for InMemoryRepository {
    closed spec fn table(&self) -> Table {
        self.store@
    }

    open spec fn infallible(&self) -> bool {
        true
    }

    fn find_all(&self) -> (result: Result<Vec<Record>, StoreError>) {
        Ok(self.store.list_all())
    }

    fn find_by_id(&self, id: &str) -> (result: Result<Option<Record>, StoreError>) {
        Ok(self.store.get(id))
    }

    fn create(&mut self, record: Record) -> (result: Result<Record, StoreError>) {
        let created = record.clone();
        self.store.put(record.id.clone(), record);
        Ok(created)
    }

    fn update(&mut self, id: &str, record: Record) -> (result: Result<Record, StoreError>) {
        if !self.store.contains(id) {
            return Err(StoreError::NotFound(id.to_owned()));
        }
        let updated = record.clone();
        self.store.put(id.to_owned(), record);
        Ok(updated)
    }

    fn delete(&mut self, id: &str) -> (result: Result<bool, StoreError>) {
        Ok(self.store.remove(id))
    }
}

} // verus!
