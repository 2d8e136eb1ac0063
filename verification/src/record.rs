//! The stored entity and its mathematical model.

use vstd::prelude::*;

verus! {

/// Capability level of a record's owner.
#[derive(Clone, Copy, Debug, PartialEq, Eq, Structural)]
pub enum Role {
    Admin,
    Editor,
    Viewer,
}

/// What a [`Record`] is, as plain mathematical values.
pub struct RecordModel {
    pub id: Seq<char>,
    pub name: Seq<char>,
    pub contact: Seq<char>,
    pub role: Role,
    pub tags: Seq<Seq<char>>,
}

/// The unit of stored data.
#[derive(Debug, PartialEq, Eq)]
pub struct Record {
    pub id: String,
    pub name: String,
    pub contact: String,
    pub role: Role,
    pub tags: Vec<String>,
}

impl View for Record {
    type V = RecordModel;

    open spec fn view(&self) -> RecordModel {
        RecordModel {
            id: self.id@,
            name: self.name@,
            contact: self.contact@,
            role: self.role,
            tags: self.tags@.map_values(|t: String| t@),
        }
    }
}

impl Clone for Record {
    /// An independent copy: same model, no shared storage.
    fn clone(&self) -> (copy: Self)
        ensures
            copy@ == self@,
    {
        let mut tags: Vec<String> = Vec::new();
        let mut i: usize = 0;
        while i < self.tags.len()
            invariant
                i <= self.tags.len(),
                tags.len() == i,
                forall|j: int| 0 <= j < i ==> tags[j]@ == self.tags[j]@,
            decreases self.tags.len() - i,
        {
            tags.push(self.tags[i].clone());
            i += 1;
        }
        let copy = Record {
            id: self.id.clone(),
            name: self.name.clone(),
            contact: self.contact.clone(),
            role: self.role,
            tags,
        };
        assert(copy.tags@.map_values(|t: String| t@) =~= self.tags@.map_values(|t: String| t@));
        copy
    }
}

} // verus!
