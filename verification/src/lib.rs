//! Delete execution for a relational data store.
//!
//! The crate decides *whether* and *what* to delete: it resolves a lookup
//! criterion (or "first child of a parent") to a concrete key, verifies
//! that a nested target is really connected to its claimed parent, refuses
//! any delete that would orphan a required relation, and only then removes
//! the row together with the link rows that reference it.  Every step runs
//! against one transaction snapshot, modelled by [`database::Database`];
//! on any failure the snapshot is provably left untouched.
pub mod database;
pub mod delete;
pub mod error;
pub mod locator;
pub mod query;
pub mod record;
pub mod schema;
pub mod seqs;
pub mod violations;

pub use delete::execute;
pub use delete::execute_nested;
