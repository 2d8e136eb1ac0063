//! The engine behind a viewer of hosted code.
//!
//! One half keeps records of people: a store that owns them, a storage
//! contract that any backend can meet, an in-memory backend, and a service
//! that validates input and draws identifiers. The other half keeps the
//! catalogue of tracked source repositories: their state of synchronisation,
//! how they are shown, and how they are searched.
//!
//! Every operation is stated over a mathematical model of the data
//! (`model`, and the views of the types), and `laws` proves what holds of
//! sequences of operations.

pub mod catalog;
pub mod contract;
pub mod error;
pub mod ids;
pub mod laws;
pub mod memory;
pub mod model;
pub mod record;
pub mod service;
pub mod store;
pub mod text;
