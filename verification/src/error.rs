//! Transport-independent error type of the API logic.

use vstd::prelude::*;

verus! {

/// API error: the HTTP layer turns it into a status code and a JSON body.
#[derive(Debug, Clone)]
pub enum CoreError {
    /// 404 — the requested resource (document, family, element) was not found.
    NotFound(String),
    /// 400 — the request could not be parsed (bad document, revision, ...).
    BadRequest(String),
    /// 501 — the endpoint exists but does not support this document type;
    /// `hint` lists suggested alternative endpoints as (name, URL) pairs.
    NotImplemented { message: String, hint: Vec<(String, String)> },
}

impl CoreError {
    /// HTTP status code for this error.
    pub fn status(&self) -> (s: u16)
        ensures
            s == match *self {
                CoreError::NotFound(_) => 404u16,
                CoreError::BadRequest(_) => 400u16,
                CoreError::NotImplemented { .. } => 501u16,
            },
    {
        match self {
            CoreError::NotFound(_) => 404,
            CoreError::BadRequest(_) => 400,
            CoreError::NotImplemented { .. } => 501,
        }
    }

    /// The error message.
    pub fn message(&self) -> (m: &str)
        ensures
            m@ == match *self {
                CoreError::NotFound(s) => s@,
                CoreError::BadRequest(s) => s@,
                CoreError::NotImplemented { message, .. } => message@,
            },
    {
        match self {
            CoreError::NotFound(s) => s.as_str(),
            CoreError::BadRequest(s) => s.as_str(),
            CoreError::NotImplemented { message, .. } => message.as_str(),
        }
    }
}

} // verus!
