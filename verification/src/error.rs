use vstd::prelude::*;

verus! {

/// Why an operation on a database failed.
#[derive(Debug, Clone, Copy, PartialEq, Eq, Structural)]
pub enum DatabaseError {
    /// No stored item is equal to the one named, or none matched a search.
    ItemNotFound,
    /// An equal item is already stored and the database reports duplicates.
    DupeFound,
    /// There is no database file at the path.
    DatabaseNotFound,
    /// No database name can be taken from the path.
    BadDbName,
    /// The bytes are not the image of a database.
    CorruptData,
    /// Writing or reading the image failed.
    IOError,
}

} // verus!
