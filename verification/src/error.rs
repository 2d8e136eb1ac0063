//! The failures that an operation on records can report.

use vstd::prelude::*;

verus! {

/// Why an operation on records failed.
#[derive(Debug, PartialEq, Eq)]
pub enum StoreError {
    /// The operation named an identifier that the backend does not hold.
    NotFound(String),
    /// The caller's input broke a rule of the domain.
    Validation(String),
    /// A resource underneath the backend failed.
    Internal(String),
    /// A record could not be encoded or decoded.
    Serialization(String),
}

impl StoreError {
    /// This is `NotFound`, and the identifier it carries is `id`.
    pub open spec fn is_not_found(self, id: Seq<char>) -> bool {
        self matches StoreError::NotFound(missing) && missing@ == id
    }

    /// This is `Validation`, and the message it carries is `message`.
    pub open spec fn is_validation(self, message: Seq<char>) -> bool {
        self matches StoreError::Validation(text) && text@ == message
    }
}

} // verus!
