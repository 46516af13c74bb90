//! Cross-site request forgery protection: the token placed in forms and
//! the check of a submitted token against the stored session value.

use vstd::prelude::*;
use crate::dict::Dict;
use crate::text::bytes_of;
use crate::token::is_alnum;

verus! {

/// A random token to be used in an HTML form: 200 alphanumeric
/// characters.
pub fn get_token() -> (r: String)
    ensures
        r@.len() == 200,
        forall|i: int| 0 <= i < r@.len() ==> is_alnum(r@[i]),
{
    crate::token::generate(200)
}

/// Whether a submitted form carries the stored token: the session must
/// exist, the input mapping must carry `csrf_token`, and the two values
/// must hold the same bytes.
pub fn is_valid(session_exists: bool, session_value: &[u8], input: &Dict) -> (r: bool)
    ensures
        r == (session_exists && input@.contains_key(bytes_of("csrf_token"@)) && input@[bytes_of(
            "csrf_token"@,
        )] == session_value@),
{
    if !session_exists {
        return false;
    }
    let key = crate::text::str_bytes("csrf_token");
    match input.get(key.as_slice()) {
        Some(v) => crate::text::eq_bytes(v.as_slice(), session_value),
        None => false,
    }
}

} // verus!
