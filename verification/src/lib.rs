//! NIST SP 800-171 / CMMC requirement catalogue: data model, search index,
//! scoring table, POA&M eligibility rules and response assembly.

pub mod text;
pub mod toon;

pub mod document;
pub mod encode;
pub mod error;
pub mod format_response;
pub mod index;
pub mod kv;
pub mod model;
pub mod annex;
pub mod assemble;
pub mod order;
pub mod poam;
pub mod query;
pub mod response;
pub mod scoring;
pub mod service;
pub mod state;
pub mod weights;
