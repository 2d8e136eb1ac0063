//! The record service: validation and derived queries over any backend.

use vstd::prelude::*;
use crate::contract::{after_create, RecordRepository};
use crate::error::StoreError;
use crate::ids::{IdGenerator, IdSet};
use crate::model::{is_listing, models_of, Table};
use crate::record::{Record, RecordModel, Role};

verus! {

/// The message of the failure that an empty name gives.
pub open spec fn empty_name_message() -> Seq<char> {
    "name must not be empty"@
}

/// The record that the service builds for a creation request.
pub open spec fn new_record(
    id: Seq<char>,
    name: Seq<char>,
    contact: Seq<char>,
    role: Role,
) -> RecordModel {
    RecordModel { id, name, contact, role, tags: Seq::empty() }
}

/// Those of `records` that have `role`, in their order.
pub open spec fn with_role(records: Seq<RecordModel>, role: Role) -> Seq<RecordModel> {
    records.filter(|r: RecordModel| r.role == role)
}

/// The caller-facing surface: it owns a backend and a source of identifiers.
pub struct RecordService<R: RecordRepository, G: IdGenerator> {
    repository: R,
    ids: G,
}

impl<R: RecordRepository, G: IdGenerator> RecordService<R, G> {
    /// The records that the service's backend holds.
    pub closed spec fn table(&self) -> Table {
        self.repository.table()
    }

    /// Whether the service's backend never fails on its own account.
    pub closed spec fn infallible(&self) -> bool {
        self.repository.infallible()
    }

    /// Every identifier that the service's generator has handed out.
    pub closed spec fn issued(&self) -> IdSet {
        self.ids.issued()
    }

    /// Every identifier that the backend holds came from the generator. While
    /// this holds, a record is never created under an identifier that is in
    /// use, or that was in use before a delete.
    pub open spec fn tracks_ids(&self) -> bool {
        self.table().dom().subset_of(self.issued())
    }

    /// A service over `repository` that draws identifiers from `ids`.
    pub fn new(repository: R, ids: G) -> (service: Self)
        ensures
            service.table() == repository.table(),
            service.infallible() == repository.infallible(),
            service.issued() == ids.issued(),
    {
        RecordService { repository, ids }
    }

    /// The backend, for reading.
    pub fn repository(&self) -> (repository: &R)
        ensures
            repository.table() == self.table(),
            repository.infallible() == self.infallible(),
    {
        &self.repository
    }

    /// The backend, for changes that need no validation: whole-record
    /// updates and deletes. What is created through it directly is not
    /// validated, and its identifier does not come from the generator.
    pub fn repository_mut(&mut self) -> (repository: &mut R)
        ensures
            repository.table() == old(self).table(),
            repository.infallible() == old(self).infallible(),
            final(self).table() == final(repository).table(),
            final(self).infallible() == final(repository).infallible(),
            final(self).issued() == old(self).issued(),
    {
        &mut self.repository
    }

    /// Creates a record with the given identifier and no tags.
    ///
    /// An empty `name` is refused with `Validation` before the backend is
    /// touched. Otherwise the backend decides: on success the record is held
    /// under `id`, and a failure of the backend is handed on unchanged.
    pub fn create_record_with_id(
        &mut self,
        id: String,
        name: &str,
        contact: &str,
        role: Role,
    ) -> (result: Result<Record, StoreError>)
        ensures
            final(self).infallible() == old(self).infallible(),
            final(self).issued() == old(self).issued(),
            name@.len() == 0 ==> result is Err && result->Err_0.is_validation(
                empty_name_message(),
            ),
            name@.len() > 0 && old(self).infallible() ==> result is Ok,
            result matches Ok(created) ==> name@.len() > 0 && created@ == new_record(
                id@,
                name@,
                contact@,
                role,
            ),
            final(self).table() == (if result is Ok {
                after_create(old(self).table(), new_record(id@, name@, contact@, role))
            } else {
                old(self).table()
            }),
    {
        if name.is_empty() {
            return Err(StoreError::Validation("name must not be empty".to_owned()));
        }
        let record = Record {
            id,
            name: name.to_owned(),
            contact: contact.to_owned(),
            role,
            tags: Vec::new(),
        };
        assert(record@.tags =~= Seq::empty());
        self.repository.create(record)
    }

    /// Creates a record under a fresh identifier from the generator.
    ///
    /// An empty `name` is refused with `Validation`, and no identifier is
    /// drawn. Otherwise the outcome is that of `create_record_with_id` for
    /// the identifier that the generator gave: one that it never gave
    /// before.
    pub fn create_record(&mut self, name: &str, contact: &str, role: Role) -> (result: Result<
        Record,
        StoreError,
    >)
        ensures
            final(self).infallible() == old(self).infallible(),
            name@.len() == 0 ==> final(self).issued() == old(self).issued() && result is Err
                && result->Err_0.is_validation(empty_name_message()),
            name@.len() > 0 && old(self).infallible() ==> result is Ok,
            old(self).issued().subset_of(final(self).issued()),
            old(self).tracks_ids() ==> final(self).tracks_ids(),
            result matches Ok(created) ==> {
                &&& name@.len() > 0
                &&& created@ == new_record(created@.id, name@, contact@, role)
                &&& final(self).table() == after_create(old(self).table(), created@)
                &&& !old(self).issued().contains(created@.id)
                &&& final(self).issued() == old(self).issued().insert(created@.id)
                &&& old(self).tracks_ids() ==> !old(self).table().contains_key(created@.id)
            },
            result is Err ==> final(self).table() == old(self).table(),
    {
        if name.is_empty() {
            return Err(StoreError::Validation("name must not be empty".to_owned()));
        }
        let id = self.ids.generate_id();
        self.create_record_with_id(id, name, contact, role)
    }

    /// The records that have `role`, in the order in which the backend lists
    /// its records.
    pub fn list_by_role(&self, role: Role) -> (result: Result<Vec<Record>, StoreError>)
        ensures
            self.infallible() ==> result is Ok,
            result matches Ok(records) ==> exists|all: Seq<RecordModel>|
                is_listing(all, self.table()) && models_of(records@) == with_role(all, role),
    {
        let all = match self.repository.find_all() {
            Ok(all) => all,
            Err(e) => {
                return Err(e);
            },
        };
        let ghost listed = models_of(all@);
        let mut chosen: Vec<Record> = Vec::new();
        let mut i: usize = 0;
        while i < all.len()
            invariant
                i <= all.len(),
                listed == models_of(all@),
                models_of(chosen@) == with_role(listed.take(i as int), role),
            decreases all.len() - i,
        {
            proof {
                lemma_with_role_step(listed, i as int, role);
            }
            if all[i].role == role {
                chosen.push(all[i].clone());
            }
            i += 1;
        }
        assert(listed.take(all.len() as int) =~= listed);
        Ok(chosen)
    }
}

/// Filtering one record more either appends it or changes nothing.
proof fn lemma_with_role_step(records: Seq<RecordModel>, i: int, role: Role)
    requires
        0 <= i < records.len(),
    ensures
        with_role(records.take(i + 1), role) == (if records[i].role == role {
            with_role(records.take(i), role).push(records[i])
        } else {
            with_role(records.take(i), role)
        }),
{
    reveal(Seq::filter);
    assert(records.take(i + 1).drop_last() =~= records.take(i));
}

} // verus!
