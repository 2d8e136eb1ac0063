//! The record store: the single owner of the authoritative mapping.

use vstd::prelude::*;
use crate::model::{is_listing, listed_under, lookup, model_of, models_of, Table};
use crate::record::{Record, RecordModel};
use crate::text::same_text;

verus! {

/// One record together with the identifier it is held under.
struct Slot {
    key: String,
    record: Record,
}

/// The identifiers of `slots`, in storage order.
spec fn keys_of(slots: Seq<Slot>) -> Seq<Seq<char>> {
    slots.map_values(|s: Slot| s.key@)
}

/// The mapping that `slots` stands for.
spec fn table_of(slots: Seq<Slot>) -> Table {
    Map::new(
        |k: Seq<char>| keys_of(slots).contains(k),
        |k: Seq<char>| slots[keys_of(slots).index_of(k)].record@,
    )
}

/// With distinct identifiers, position `i` is where `table_of` looks up the
/// identifier of `slots[i]`.
proof fn lemma_slot_is_found(slots: Seq<Slot>, i: int)
    requires
        keys_of(slots).no_duplicates(),
        0 <= i < slots.len(),
    ensures
        table_of(slots).contains_key(slots[i].key@),
        table_of(slots)[slots[i].key@] == slots[i].record@,
{
    let keys = keys_of(slots);
    assert(keys[i] == slots[i].key@);
}

/// A mapping from identifier to record, with at most one record per
/// identifier.
pub struct RecordStore {
    slots: Vec<Slot>,
}

impl View for RecordStore {
    type V = Table;

    closed spec fn view(&self) -> Table {
        table_of(self.slots@)
    }
}

impl RecordStore {
    #[verifier::type_invariant]
    spec fn distinct_keys(self) -> bool {
        keys_of(self.slots@).no_duplicates()
    }

    /// An empty store.
    pub fn new() -> (store: Self)
        ensures
            store@ == Map::<Seq<char>, RecordModel>::empty(),
    {
        let store = RecordStore { slots: Vec::new() };
        store
    }

    /// Where `id` is held, if anywhere.
    fn position(slots: &Vec<Slot>, id: &str) -> (found: Option<usize>)
        ensures
            match found {
                Some(i) => i < slots.len() && slots[i as int].key@ == id@,
                None => !keys_of(slots@).contains(id@),
            },
    {
        let mut i: usize = 0;
        while i < slots.len()
            invariant
                i <= slots.len(),
                forall|j: int| 0 <= j < i ==> slots[j].key@ != id@,
            decreases slots.len() - i,
        {
            if same_text(slots[i].key.as_str(), id) {
                return Some(i);
            }
            i += 1;
        }
        None
    }

    /// A copy of the record held under `id`, if there is one.
    pub fn get(&self, id: &str) -> (found: Option<Record>)
        ensures
            model_of(found) == lookup(self@, id@),
    {
        proof {
            use_type_invariant(self);
        }
        match Self::position(&self.slots, id) {
            Some(i) => {
                proof {
                    lemma_slot_is_found(self.slots@, i as int);
                }
                Some(self.slots[i].record.clone())
            },
            None => None,
        }
    }

    /// Whether a record is held under `id`.
    pub fn contains(&self, id: &str) -> (present: bool)
        ensures
            present == self@.contains_key(id@),
    {
        proof {
            use_type_invariant(self);
        }
        match Self::position(&self.slots, id) {
            Some(i) => {
                proof {
                    lemma_slot_is_found(self.slots@, i as int);
                }
                true
            },
            None => false,
        }
    }

    /// The number of records held.
    pub fn len(&self) -> (count: usize)
        ensures
            self@.dom().finite(),
            count == self@.len(),
    {
        proof {
            use_type_invariant(self);
            lemma_table_len(self.slots@);
        }
        self.slots.len()
    }

    /// Inserts `record` under `id`, replacing whatever was held there.
    pub fn put(&mut self, id: String, record: Record)
        ensures
            final(self)@ == old(self)@.insert(id@, record@),
    {
        proof {
            use_type_invariant(&*self);
        }
        let ghost before = self.slots@;
        let mut slots: Vec<Slot> = Vec::new();
        std::mem::swap(&mut slots, &mut self.slots);
        let slot = Slot { key: id, record };
        match Self::position(&slots, slot.key.as_str()) {
            Some(i) => {
                slots.set(i, slot);
                proof {
                    lemma_replace(before, i as int, slot);
                }
            },
            None => {
                slots.push(slot);
                proof {
                    lemma_append(before, slot);
                }
            },
        }
        self.slots = slots;
    }

    /// Deletes the record held under `id`; says whether there was one.
    pub fn remove(&mut self, id: &str) -> (removed: bool)
        ensures
            removed == old(self)@.contains_key(id@),
            final(self)@ == old(self)@.remove(id@),
    {
        proof {
            use_type_invariant(&*self);
        }
        let ghost before = self.slots@;
        let mut slots: Vec<Slot> = Vec::new();
        std::mem::swap(&mut slots, &mut self.slots);
        let removed = match Self::position(&slots, id) {
            Some(i) => {
                let _ = slots.remove(i);
                proof {
                    lemma_take_out(before, i as int);
                }
                true
            },
            None => {
                false
            },
        };
        self.slots = slots;
        removed
    }

    /// A copy of every record held, each exactly once, in storage order.
    pub fn list_all(&self) -> (records: Vec<Record>)
        ensures
            is_listing(models_of(records@), self@),
    {
        proof {
            use_type_invariant(self);
        }
        let mut records: Vec<Record> = Vec::new();
        let mut i: usize = 0;
        while i < self.slots.len()
            invariant
                i <= self.slots.len(),
                records.len() == i,
                forall|j: int| 0 <= j < i ==> records[j]@ == self.slots[j].record@,
            decreases self.slots.len() - i,
        {
            records.push(self.slots[i].record.clone());
            i += 1;
        }
        proof {
            let keys = keys_of(self.slots@);
            let models = models_of(records@);
            assert forall|j: int| 0 <= j < keys.len() implies models[j] == self@[#[trigger] keys[j]] by {
                lemma_slot_is_found(self.slots@, j);
            }
            assert(listed_under(keys, models, self@));
        }
        records
    }
}

/// With distinct identifiers there are as many records as slots.
proof fn lemma_table_len(slots: Seq<Slot>)
    requires
        keys_of(slots).no_duplicates(),
    ensures
        table_of(slots).dom().finite(),
        table_of(slots).len() == slots.len(),
{
    let keys = keys_of(slots);
    keys.unique_seq_to_set();
}

/// Overwriting the slot that holds an identifier is `insert` on the mapping.
proof fn lemma_replace(slots: Seq<Slot>, i: int, slot: Slot)
    requires
        keys_of(slots).no_duplicates(),
        0 <= i < slots.len(),
        slots[i].key@ == slot.key@,
    ensures
        keys_of(slots.update(i, slot)).no_duplicates(),
        table_of(slots.update(i, slot)) == table_of(slots).insert(slot.key@, slot.record@),
{
    let after = slots.update(i, slot);
    assert(keys_of(after) =~= keys_of(slots));
    assert forall|k: Seq<char>| #[trigger] table_of(after).contains_key(k) implies table_of(after)[k]
        == table_of(slots).insert(slot.key@, slot.record@)[k] by {
        let j = keys_of(after).index_of(k);
        lemma_slot_is_found(after, j);
        if j != i {
            assert(keys_of(slots)[j] == k && keys_of(slots)[i] == slot.key@);
            lemma_slot_is_found(slots, j);
        }
    }
}

/// Appending a slot with a new identifier is `insert` on the mapping.
proof fn lemma_append(slots: Seq<Slot>, slot: Slot)
    requires
        keys_of(slots).no_duplicates(),
        !keys_of(slots).contains(slot.key@),
    ensures
        keys_of(slots.push(slot)).no_duplicates(),
        table_of(slots.push(slot)) == table_of(slots).insert(slot.key@, slot.record@),
{
    let after = slots.push(slot);
    assert(keys_of(after) =~= keys_of(slots).push(slot.key@));
    assert forall|k: Seq<char>| #[trigger] table_of(after).contains_key(k) implies table_of(after)[k]
        == table_of(slots).insert(slot.key@, slot.record@)[k] by {
        let j = keys_of(after).index_of(k);
        lemma_slot_is_found(after, j);
        if j < slots.len() {
            lemma_slot_is_found(slots, j);
        }
    }
    assert forall|k: Seq<char>| table_of(after).contains_key(k) <==> table_of(slots).insert(
        slot.key@,
        slot.record@,
    ).contains_key(k) by {
        if keys_of(slots).contains(k) {
            let j = keys_of(slots).index_of(k);
            assert(keys_of(after)[j] == k);
        }
        if k == slot.key@ {
            assert(keys_of(after)[slots.len() as int] == k);
        }
    }
}

/// Taking a slot out is `remove` on the mapping.
proof fn lemma_take_out(slots: Seq<Slot>, i: int)
    requires
        keys_of(slots).no_duplicates(),
        0 <= i < slots.len(),
    ensures
        keys_of(slots.remove(i)).no_duplicates(),
        table_of(slots).contains_key(slots[i].key@),
        table_of(slots.remove(i)) == table_of(slots).remove(slots[i].key@),
{
    let after = slots.remove(i);
    let gone = slots[i].key@;
    lemma_slot_is_found(slots, i);
    assert(keys_of(after) =~= keys_of(slots).remove(i));
    assert forall|k: Seq<char>| table_of(after).contains_key(k) <==> table_of(slots).remove(
        gone,
    ).contains_key(k) by {
        assert(keys_of(slots)[i] == gone);
        if keys_of(slots).contains(k) && k != gone {
            let j = keys_of(slots).index_of(k);
            if j < i {
                assert(keys_of(after)[j] == k);
            } else {
                assert(keys_of(after)[j - 1] == k);
            }
        }
    }
    assert forall|k: Seq<char>| #[trigger] table_of(after).contains_key(k) implies table_of(after)[k]
        == table_of(slots).remove(gone)[k] by {
        let j = keys_of(after).index_of(k);
        lemma_slot_is_found(after, j);
        if j < i {
            lemma_slot_is_found(slots, j);
        } else {
            lemma_slot_is_found(slots, j + 1);
        }
    }
}

} // verus!
