//! The error taxonomy of the storage engine.
//!
//! Every failure surfaces across the command boundary as a single
//! human-readable string, so the UI layer only ever displays text.

use vstd::prelude::*;

verus! {

/// Everything that can go wrong inside the storage engine.
#[derive(Clone, Copy, PartialEq, Eq, Structural, Debug)]
pub enum StorageError {
    /// Filesystem or storage-file access failed.
    Io,
    /// Applying the schema or a migration failed.
    Schema,
    /// A referenced item or collection identifier is absent.
    NotFound,
    /// A uniqueness or identifier-space constraint was violated.
    Constraint,
    /// Malformed aggregation parameters, e.g. an invalid month window.
    Query,
}

impl StorageError {
    /// The stable human-readable rendering of this error.
    pub fn message(&self) -> (r: String)
        ensures
            *self == StorageError::Io ==> r@ == "storage access failed"@,
            *self == StorageError::Schema ==> r@ == "schema migration failed"@,
            *self == StorageError::NotFound ==> r@ == "referenced id not found"@,
            *self == StorageError::Constraint ==> r@ == "constraint violated"@,
            *self == StorageError::Query ==> r@ == "invalid query parameters"@,
    {
        match self {
            StorageError::Io => "storage access failed".to_owned(),
            StorageError::Schema => "schema migration failed".to_owned(),
            StorageError::NotFound => "referenced id not found".to_owned(),
            StorageError::Constraint => "constraint violated".to_owned(),
            StorageError::Query => "invalid query parameters".to_owned(),
        }
    }
}

} // verus!
