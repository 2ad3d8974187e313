//! Failures of the cache's store.

use vstd::prelude::*;

verus! {

/// A failed cache operation: the operation (`locate`, `load` or `save`) and
/// what went wrong.
#[non_exhaustive]
#[derive(Debug)]
pub enum Error {
    Cache(String, String),
}

/// What a failed operation is reported as, before its cause.
pub open spec fn summary_of(operation: Seq<char>) -> Seq<char> {
    "Cache manipulation failed: enable to "@ + operation + " the cache."@
}

impl Error {
    /// The one-line report of the failure.
    pub fn summary(&self) -> (r: String)
        ensures
            r@ == match self {
                Error::Cache(operation, _) => summary_of(operation@),
            },
    {
        match self {
            Error::Cache(operation, _) => {
                let head = String::from_str("Cache manipulation failed: enable to ");
                head.concat(operation.as_str()).concat(" the cache.")
            },
        }
    }

    /// The underlying cause of the failure.
    pub fn cause(&self) -> (r: &String)
        ensures
            r == match self {
                Error::Cache(_, cause) => cause,
            },
    {
        match self {
            Error::Cache(_, cause) => cause,
        }
    }
}

} // verus!
