//! In-memory table state and transaction engine of a bitemporal object store.
//!
//! Objects live in tables on one timeline ("current") or two ("current" and
//! "active"); every change is a new immutable version record. The engine
//! keeps the live records of each table in memory, buffers the edits of a
//! transaction, and derives the writes that take the document store to the
//! new state.

pub mod bulk_op;
pub mod dual_commit;
pub mod dual_versioned_data;
pub mod elastic;
pub mod error;
pub mod ids;
pub mod object_map;
pub mod operation;
pub mod replay;
pub mod single_versioned_data;
pub mod state;
pub mod table_data;
pub mod table_state;
pub mod updates;
pub mod verification;
pub mod versioned;
