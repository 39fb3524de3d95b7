//! The session vault: identifiers, token hashes and text cleaning shared by
//! its importers and handlers.

pub mod api;
pub mod auth;
pub mod backfill;
pub mod backfill_args;
pub mod keys;
pub mod pages;
pub mod repo;
pub mod search;
pub mod session_import;
pub mod shares;
pub mod titles;
pub mod web;

use vstd::prelude::*;

use crate::domain::api_key::token_hash_text;
use crate::primitives::{hex_encode, is_hex_of_16_bytes, sha256_digest, uuid_v4_simple};
use crate::text::{concat3, concat_str, strip_nul_chars, without_nul};

verus! {

/// A fresh identifier: `prefix`, an underscore and a random UUID in simple form.
pub fn new_id(prefix: &str) -> (r: String)
    ensures
        r@.take(prefix@.len() + 1int) == prefix@ + "_"@,
        r@.len() == prefix@.len() + 33,
        is_hex_of_16_bytes(r@.skip(prefix@.len() + 1int)),
{
    let u = uuid_v4_simple();
    let r = concat3(prefix, "_", u.as_str());
    proof {
        reveal_strlit("_");
        let b = choose|b: Seq<u8>| b.len() == 16 && u@ == crate::primitives::hex_lower(b);
        crate::primitives::lemma_hex_lower_shape(b);
        assert(r@.take(prefix@.len() + 1int) =~= prefix@ + "_"@);
        assert(r@.skip(prefix@.len() + 1int) =~= u@);
    }
    r
}

/// `sha256:` followed by the lowercase hex SHA-256 of the UTF-8 bytes of `value`.
pub fn token_hash(value: &str) -> (r: String)
    ensures
        r@ == token_hash_text(value@),
{
    let digest = sha256_digest(value.as_bytes());
    let hex = hex_encode(digest.as_slice());
    concat_str("sha256:", hex.as_str())
}

/// Removes NUL characters, which Postgres text columns refuse.
pub fn strip_nuls(s: &str) -> (r: String)
    ensures
        r@ == without_nul(s@),
{
    strip_nul_chars(s)
}

/// `strip_nuls` inside an option.
pub fn strip_nuls_opt(s: Option<String>) -> (r: Option<String>)
    ensures
        match s {
            Some(v) => r matches Some(w) && w@ == without_nul(v@),
            None => r is None,
        },
{
    match s {
        Some(v) => Some(strip_nuls(v.as_str())),
        None => None,
    }
}

} // verus!
