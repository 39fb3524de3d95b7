//! Bearer-token checks of the hub's machine-facing endpoints.

use vstd::prelude::*;
use vstd::utf8::encode_utf8_decode_utf8;
use crate::primitives::bytes_eq_constant_time;
use crate::text::{chars_of, has_prefix, starts_with_chars, string_from_chars, sub_chars};

verus! {

/// The `Authorization` header `header` carries `Bearer ` followed by exactly
/// `expected`.
pub open spec fn bearer_matches(header: Option<&str>, expected: Seq<char>) -> bool {
    match header {
        Some(h) => has_prefix(h@, "Bearer "@) && h@.skip(7) == expected,
        None => false,
    }
}

/// The token of an `Authorization` header after the `Bearer ` scheme, if any.
pub fn bearer_token(header: Option<&str>) -> (r: Option<String>)
    ensures
        match header {
            Some(h) => if has_prefix(h@, "Bearer "@) {
                r matches Some(t) && t@ == h@.skip(7)
            } else {
                r is None
            },
            None => r is None,
        },
{
    match header {
        None => None,
        Some(h) => {
            let v = chars_of(h);
            let scheme: Vec<char> = vec!['B', 'e', 'a', 'r', 'e', 'r', ' '];
            proof {
                reveal_strlit("Bearer ");
                assert(scheme@ =~= "Bearer "@);
            }
            if starts_with_chars(v.as_slice(), scheme.as_slice()) {
                let rest = sub_chars(v.as_slice(), 7, v.len());
                assert(rest@ =~= h@.skip(7));
                Some(string_from_chars(rest.as_slice()))
            } else {
                None
            }
        },
    }
}

/// Verifies the `Authorization` header value (`None` when the header is
/// missing or not visible ASCII) against the expected token, comparing the
/// token bytes in constant time.
pub fn verify_bearer_token(header: Option<&str>, expected_token: &str) -> (r: bool)
    ensures
        r == bearer_matches(header, expected_token@),
{
    match bearer_token(header) {
        None => false,
        Some(t) => {
            let same = bytes_eq_constant_time(t.as_str().as_bytes(), expected_token.as_bytes());
            proof {
                encode_utf8_decode_utf8(t@);
                encode_utf8_decode_utf8(expected_token@);
            }
            same
        },
    }
}

/// The value of an `Authorization` header that presents `token`.
pub fn bearer_header(token: &str) -> (r: String)
    ensures
        r@ == "Bearer "@ + token@,
{
    crate::text::concat_str("Bearer ", token)
}

/// The header that `bearer_header` builds for a token passes the bearer check
/// for that token, and for no other.
pub proof fn lemma_bearer_header_accepted(token: Seq<char>, expected: Seq<char>)
    ensures
        ({
            let h = "Bearer "@ + token;
            has_prefix(h, "Bearer "@) && h.skip(7) == expected
        }) <==> token == expected,
{
    reveal_strlit("Bearer ");
    let h = "Bearer "@ + token;
    assert(h.take(7) =~= "Bearer "@);
    assert(h.skip(7) =~= token);
}

} // verus!
