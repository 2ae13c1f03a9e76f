//! An in-memory store of records that can be dumped to a byte image and
//! restored from one.
//!
//! A [`Database`] holds a set of [`Record`]s: no two stored records are equal.
//! Records are created, updated, destroyed and searched by a field, and the
//! whole store turns into bytes and back. Reading and writing the file that
//! holds those bytes is left to the caller.

pub mod database;
pub mod error;
pub mod gddb;
pub mod items;
pub mod laws;
pub mod path;
pub mod record;
pub mod search;
pub mod snapshot;

pub use database::{Database, DatabaseView};
pub use error::DatabaseError;
pub use gddb::GDDB;
pub use items::ItemSet;
pub use record::{Record, RecordCheck, RecordView};
