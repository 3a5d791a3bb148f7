//! Client-side core of a prover-as-a-service pipeline.
//!
//! The crate models one submitted query as it moves through an ordered
//! sequence of named stages, interprets the job-status snapshots the service
//! returns, and extracts the final proof artifact (program hash, program
//! output, output hash, flattened field elements) from the raw proof
//! document.  All transport (HTTP, multipart encoding) lives outside this
//! crate; everything here is pure computation over plain values.

pub mod felt;
pub mod json;
pub mod document;
pub mod error;
pub mod extract;
pub mod models;
pub mod tracker;
pub mod client;
pub mod endpoints;
