//! Key-value storage layout of published documents.

pub mod ingest;
pub mod keys;
pub mod span;
