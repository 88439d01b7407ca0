//! The status answered when a required header is missing.

use vstd::prelude::*;

use crate::generators::common::headers::{header_runtime_key, spec_header_runtime_key};
use crate::text::str_eq;

verus! {

/// 401 for the credential headers (`authorization`, `x-api-key`), 400 for
/// every other header.
pub open spec fn spec_missing_header_status(name: Seq<char>) -> u16 {
    let key = spec_header_runtime_key(name);
    if key == "authorization"@ || key == "x-api-key"@ {
        401
    } else {
        400
    }
}

pub fn missing_header_status(name: &str) -> (r: u16)
    ensures
        r == spec_missing_header_status(name@),
{
    let key = header_runtime_key(name);
    if str_eq(key.as_str(), "authorization") || str_eq(key.as_str(), "x-api-key") {
        401
    } else {
        400
    }
}

} // verus!
