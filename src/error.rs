//! The store's classified failures.
use vstd::prelude::*;

verus! {

/// Why an operation on the store failed.
#[derive(Debug, Clone)]
pub enum StoreError {
    /// The shared connection could not be acquired.
    Lock(String),
    /// A lookup by id matched no row.
    NotFound,
    /// The store rejected a statement.
    Query(String),
    /// A directory or file could not be created.
    Io(String),
}

impl StoreError {
    /// A one-line description of the failure.
    pub fn message(&self) -> (r: String)
        ensures
            self is NotFound ==> r@ == "Query returned no rows"@,
            self is Lock ==> r@ == self->Lock_0@,
            self is Query ==> r@ == self->Query_0@,
            self is Io ==> r@ == self->Io_0@,
    {
        match self {
            StoreError::Lock(m) => m.clone(),
            StoreError::NotFound => String::from_str("Query returned no rows"),
            StoreError::Query(m) => m.clone(),
            StoreError::Io(m) => m.clone(),
        }
    }
}

} // verus!
