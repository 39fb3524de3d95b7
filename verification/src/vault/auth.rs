//! Signed values (share cookies) of the vault.

use vstd::prelude::*;
use vstd::utf8::encode_utf8;
use crate::primitives::{hex_encode, hex_lower, hmac_sha256, hmac_sha256_tag, lemma_hex_lower_shape};
use crate::authentication::bearer_token;
use crate::vault::shares::opt_str;
use crate::domain::api_key::{token_hash_text, valid_api_token, ApiToken, ApiTokenHash};
use crate::text::{has_prefix, is_hex_byte, str_eq};

verus! {

/// The signature of `value` under `secret`: lowercase hex of the HMAC-SHA256
/// tag keyed with the secret's bytes over the value's bytes.
pub open spec fn signature_text(value: Seq<char>, secret: Seq<char>) -> Seq<char> {
    hex_lower(hmac_sha256(encode_utf8(secret), encode_utf8(value)))
}

/// `signature` is accepted for `value` under `secret`.
pub open spec fn signature_accepted(value: Seq<char>, signature: Seq<char>, secret: Seq<char>) -> bool {
    signature == signature_text(value, secret)
}

/// Signs `value` with `secret` (HMAC-SHA256, lowercase hex).
pub fn sign(value: &str, secret: &str) -> (r: String)
    ensures
        r@ == signature_text(value@, secret@),
        r@.len() == 64,
        forall|i: int| 0 <= i < 64 ==> is_hex_byte(#[trigger] r@[i] as u8),
{
    let tag = hmac_sha256_tag(secret.as_bytes(), value.as_bytes());
    proof {
        lemma_hex_lower_shape(tag@);
    }
    hex_encode(tag.as_slice())
}

/// Checks that `signature` is the signature of `value` under `secret`.
pub fn verify_signature(value: &str, signature: &str, secret: &str) -> (r: bool)
    ensures
        r == signature_accepted(value@, signature@, secret@),
{
    let expected = sign(value, secret);
    str_eq(expected.as_str(), signature)
}

/// A value signed with a secret verifies with that secret, and with no other
/// signature text.
pub proof fn lemma_signature_roundtrip(value: Seq<char>, secret: Seq<char>, other: Seq<char>)
    ensures
        signature_accepted(value, signature_text(value, secret), secret),
        other != signature_text(value, secret) ==> !signature_accepted(value, other, secret),
{
}

/// The stored hash under which the client presenting the `Authorization`
/// header `authorization` is looked up: the header must carry `Bearer ` and a
/// well-formed API token. `None` is answered 401 without a lookup.
pub open spec fn presented_token_hash(authorization: Option<Seq<char>>) -> Option<Seq<char>> {
    match authorization {
        Some(h) => if has_prefix(h, "Bearer "@) && valid_api_token(h.skip(7)) {
            Some(token_hash_text(h.skip(7)))
        } else {
            None
        },
        None => None,
    }
}

/// The hash to look the presenting client up by (`require_api_token` before
/// its database lookup); `None` when the request is refused outright.
pub fn lookup_token_hash(authorization: Option<&str>) -> (r: Option<ApiTokenHash>)
    ensures
        match r {
            Some(h) => presented_token_hash(opt_str(authorization)) == Some(h@),
            None => presented_token_hash(opt_str(authorization)) is None,
        },
{
    let token = match bearer_token(authorization) {
        Some(t) => t,
        None => return None,
    };
    match ApiToken::parse(token) {
        Ok(t) => Some(t.hash()),
        Err(_) => None,
    }
}

/// A minted token authenticates: presented as `Bearer <token>`, it is looked
/// up under exactly the hash that is stored for it.
pub proof fn lemma_minted_token_authenticates(token: Seq<char>)
    requires
        valid_api_token(token),
    ensures
        presented_token_hash(Some("Bearer "@ + token)) == Some(token_hash_text(token)),
{
    reveal_strlit("Bearer ");
    let h = "Bearer "@ + token;
    assert(h.take(7) =~= "Bearer "@);
    assert(h.skip(7) =~= token);
}

} // verus!
