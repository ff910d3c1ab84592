//! Content negotiation: which output format a request asks for.

use vstd::prelude::*;

use crate::text::{seq_contains, str_contains};

verus! {

/// Content type of JSON output.
pub const CONTENT_TYPE_JSON: &'static str = "application/json";
/// Content type of TOON output.
pub const CONTENT_TYPE_TOON: &'static str = "text/toon; charset=utf-8";

/// Returns `true` when an `Accept` header value opts into TOON output.
pub fn wants_toon(accept: Option<&str>) -> (r: bool)
    ensures
        r == match accept {
            Some(s) => seq_contains(s@, "text/toon"@),
            None => false,
        },
{
    match accept {
        Some(s) => str_contains(s, "text/toon"),
        None => false,
    }
}

} // verus!
