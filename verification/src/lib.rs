//! Verified core of the Magistrax flashcard trainer: the data model, the
//! per-set card identifiers, the load protocol of the user's data and the
//! shuffled study queue.

pub mod data;
pub mod store;
pub mod study;
