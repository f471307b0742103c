//! The failures that the pipeline reports.
use vstd::prelude::*;

verus! {

/// Why an operation of the pipeline failed.
#[derive(Clone, Copy, Debug, PartialEq, Eq, Structural)]
pub enum ErrorKind {
    /// A referenced entity is missing.
    NotFound,
    /// A call into a store, the vectorizer, the searcher or the generator failed.
    ServiceFailure,
    /// A unit of work could not be joined.
    ConcurrencyFailure,
}

} // verus!
