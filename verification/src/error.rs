//! The error taxonomy of the ingestion pipeline. A coordinate resolving to
//! no region is not an error and never appears here; it is stored as an
//! absent code.

use vstd::prelude::*;
use crate::util::{contains_seq, contains_sub};

verus! {

/// Why an ingestion was rejected.
#[derive(Debug, Clone, PartialEq, Eq)]
pub enum IngestError {
    /// The match exists but has not concluded; the caller must wait.
    NotFinished,
    /// The match was ingested before; an idempotent no-op, reported
    /// distinctly from true failures.
    AlreadyExists,
    /// A transport or deserialization failure from the game service or an
    /// enrichment call; surfaced, never retried here.
    UpstreamFetchFailure(String),
    /// Any other storage error; the transaction was rolled back in full.
    StorageFailure(String),
}

/// The storage layer's wording for a primary-key conflict.
pub open spec fn dup_key_needle() -> Seq<char> {
    "duplicate key value violates unique constraint"@
}

/// Classifies a storage error message: a primary-key conflict means the
/// match was already ingested; anything else is surfaced verbatim as a
/// storage failure.
pub fn classify_db_error(message: &str) -> (r: IngestError)
    ensures
        contains_seq(message@, dup_key_needle()) ==> r == IngestError::AlreadyExists,
        !contains_seq(message@, dup_key_needle()) ==> (r matches IngestError::StorageFailure(m)
            && m@ == message@),
{
    if contains_sub(message, "duplicate key value violates unique constraint") {
        IngestError::AlreadyExists
    } else {
        IngestError::StorageFailure(message.to_owned())
    }
}

} // verus!
