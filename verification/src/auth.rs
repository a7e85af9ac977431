//! Authentication of deployment notifications by their `Authorization` header.

use vstd::prelude::*;

use crate::text::str_eq;

verus! {

/// Whether a notification is authenticated: it carries an `Authorization` header whose
/// text is exactly the API key. A missing header, or one that is not text, is refused.
pub fn is_authorized(header: Option<&str>, api_key: &str) -> (r: bool)
    ensures
        r == (header matches Some(h) && h@ == api_key@),
{
    match header {
        Some(h) => str_eq(h, api_key),
        None => false,
    }
}

} // verus!
