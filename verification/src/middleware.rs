//! Access control: requests must carry the shared token.

use vstd::prelude::*;

verus! {

/// A request is let through exactly when it carries a token (in its
/// `X-Auth-Token` header) equal to the expected one.
pub fn is_authorized(provided: Option<&str>, expected: &str) -> (r: bool)
    ensures
        r == (provided matches Some(t) && t@ == expected@),
{
    match provided {
        None => false,
        Some(t) => {
            let given = String::from_str(t);
            let wanted = String::from_str(expected);
            given == wanted
        },
    }
}

} // verus!
