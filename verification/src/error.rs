//! The library's error taxonomy.
//!
//! Every public operation returns either a fully valid result or one of
//! these; nothing is swallowed into a partial or defaulted result.

use vstd::prelude::*;
use crate::document::DecodeError;
use crate::extract::ExtractError;

verus! {

/// Why a pipeline operation failed.
#[derive(Debug, PartialEq, Eq)]
pub enum AtlanticSdkError {
    /// Opaque failure text from the caller's transport; retrying is the
    /// caller's decision, not this crate's.
    TransportFailure(String),
    /// The service rejected a submission; the response body verbatim.
    SubmissionRejected(String),
    /// A malformed document.  The byte stream will not change, so this
    /// is never retried.
    Decode(DecodeError),
    /// A structurally valid proof document failed extraction.
    Extract(ExtractError),
    /// The poll budget was exhausted before the pipeline completed.
    TimeoutExceeded,
    /// A base URL or other construction-time configuration is unusable.
    InvalidConfiguration,
    /// Layout text naming no known memory layout.
    InvalidLayout,
}

} // verus!
