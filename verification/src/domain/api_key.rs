//! API tokens, their stored hashes and client names.

use vstd::prelude::*;
use vstd::utf8::{encode_utf8, is_ascii_chars_encode_utf8};
use crate::primitives::{
    base64url_encode, base64url_nopad, hex_encode, hex_lower, lemma_base64url_shape,
    lemma_hex_lower_bytes, os_random_32, sha256, sha256_digest,
};
use crate::text::{all_base64url, all_hex, byte_len, bytes_all_base64url, bytes_all_hex, chars_of, concat_str, has_prefix, is_err_with, lemma_trim_shape, owned, starts_with_chars, str_byte_len, string_from_chars, sub_chars, trim};

verus! {

/// Prefix shared by every hub API token.
pub const API_TOKEN_PREFIX: &'static str = "ptv_";
/// Number of random bytes behind a token.
pub const API_TOKEN_RANDOM_BYTES: usize = 32;
/// Number of base64url characters of the random part.
pub const API_TOKEN_RANDOM_CHARS: usize = 43;
/// Number of leading characters shown when a token is listed.
pub const API_TOKEN_DISPLAY_PREFIX_LEN: usize = 12;

/// The shape of a token: `ptv_` followed by 43 URL-safe base64 bytes.
pub open spec fn valid_api_token(v: Seq<char>) -> bool {
    &&& has_prefix(v, "ptv_"@)
    &&& byte_len(v.skip(4)) == 43
    &&& all_base64url(encode_utf8(v.skip(4)))
}

/// The text stored for a token: `sha256:` and the lowercase hex SHA-256 of its bytes.
pub open spec fn token_hash_text(secret: Seq<char>) -> Seq<char> {
    "sha256:"@ + hex_lower(sha256(encode_utf8(secret)))
}

/// The shape of a stored hash: `sha256:` followed by 64 hex bytes.
pub open spec fn valid_token_hash(v: Seq<char>) -> bool {
    &&& has_prefix(v, "sha256:"@)
    &&& byte_len(v.skip(7)) == 64
    &&& all_hex(encode_utf8(v.skip(7)))
}

/// A bearer token that clients present to the hub.
#[derive(Debug)]
pub struct ApiToken(String);

impl View for ApiToken {
    type V = Seq<char>;

    closed spec fn view(&self) -> Seq<char> {
        self.0@
    }
}

impl Clone for ApiToken {
    fn clone(&self) -> (r: Self)
        ensures
            r@ == self@,
    {
        proof {
            use_type_invariant(self);
        }
        ApiToken(self.0.clone())
    }
}

impl ApiToken {
    #[verifier::type_invariant]
    closed spec fn inv(self) -> bool {
        valid_api_token(self.0@)
    }

    /// Mints a fresh token from 32 random bytes; it always has the shape `parse` accepts.
    pub fn generate() -> (t: Self)
        ensures
            valid_api_token(t@),
            exists|b: Seq<u8>| b.len() == 32 && t@ == "ptv_"@ + base64url_nopad(b),
    {
        let bytes = os_random_32();
        let suffix = base64url_encode(bytes.as_slice());
        let value = concat_str(API_TOKEN_PREFIX, suffix.as_str());
        proof {
            reveal_strlit("ptv_");
            lemma_base64url_shape(bytes@);
            is_ascii_chars_encode_utf8(suffix@);
            assert(value@.take(4) =~= "ptv_"@);
            assert(value@.skip(4) =~= suffix@);
        }
        ApiToken(value)
    }

    /// Accepts `ptv_` followed by exactly 43 URL-safe base64 bytes.
    pub fn parse(value: String) -> (r: Result<Self, String>)
        ensures
            r is Ok <==> valid_api_token(value@),
            r matches Ok(t) ==> t@ == value@,
            !has_prefix(value@, "ptv_"@) ==> is_err_with(r, "API token must start with ptv_"@),
            has_prefix(value@, "ptv_"@) && byte_len(value@.skip(4)) != 43 ==> is_err_with(
                r,
                "API token must have a 43-character random suffix"@,
            ),
            has_prefix(value@, "ptv_"@) && byte_len(value@.skip(4)) == 43 && !valid_api_token(
                value@,
            ) ==> is_err_with(r, "API token suffix must be base64url without padding"@),
    {
        proof {
            reveal_strlit("ptv_");
        }
        let v = chars_of(value.as_str());
        let p = chars_of(API_TOKEN_PREFIX);
        if !starts_with_chars(v.as_slice(), p.as_slice()) {
            return Err(owned("API token must start with ptv_"));
        }
        let suffix = string_from_chars(sub_chars(v.as_slice(), 4, v.len()).as_slice());
        assert(suffix@ =~= value@.skip(4));
        if str_byte_len(suffix.as_str()) != API_TOKEN_RANDOM_CHARS {
            return Err(owned("API token must have a 43-character random suffix"));
        }
        if !bytes_all_base64url(suffix.as_str().as_bytes()) {
            return Err(owned("API token suffix must be base64url without padding"));
        }
        Ok(ApiToken(value))
    }

    /// The token text.
    pub fn expose_secret(&self) -> (r: &str)
        ensures
            r@ == self@,
            valid_api_token(r@),
    {
        proof {
            use_type_invariant(self);
        }
        self.0.as_str()
    }

    /// The hash under which the token is stored.
    pub fn hash(&self) -> (h: ApiTokenHash)
        ensures
            h@ == token_hash_text(self@),
    {
        ApiTokenHash::from_secret(self.0.as_str())
    }

    /// The first twelve characters, shown when tokens are listed.
    pub fn display_prefix(&self) -> (r: String)
        ensures
            r@ == self@.take(12),
    {
        proof {
            use_type_invariant(self);
            reveal_strlit("ptv_");
            crate::text::lemma_byte_len_bounds(self@.skip(4));
        }
        let v = chars_of(self.0.as_str());
        let n = if v.len() < API_TOKEN_DISPLAY_PREFIX_LEN {
            v.len()
        } else {
            API_TOKEN_DISPLAY_PREFIX_LEN
        };
        let r = string_from_chars(sub_chars(v.as_slice(), 0, n).as_slice());
        assert(r@ =~= self@.take(12));
        r
    }
}

/// The stored form of a token: `sha256:` and a 64-digit hex digest.
#[derive(Debug, PartialEq, Eq)]
pub struct ApiTokenHash(String);

impl View for ApiTokenHash {
    type V = Seq<char>;

    closed spec fn view(&self) -> Seq<char> {
        self.0@
    }
}

impl Clone for ApiTokenHash {
    fn clone(&self) -> (r: Self)
        ensures
            r@ == self@,
    {
        proof {
            use_type_invariant(self);
        }
        ApiTokenHash(self.0.clone())
    }
}

impl ApiTokenHash {
    #[verifier::type_invariant]
    closed spec fn inv(self) -> bool {
        valid_token_hash(self.0@)
    }

    /// Hashes a token: `sha256:` and the lowercase hex SHA-256 of its UTF-8 bytes.
    pub fn from_secret(value: &str) -> (h: Self)
        ensures
            h@ == token_hash_text(value@),
            valid_token_hash(h@),
    {
        let digest = sha256_digest(value.as_bytes());
        let hex = hex_encode(digest.as_slice());
        let text = concat_str("sha256:", hex.as_str());
        proof {
            reveal_strlit("sha256:");
            lemma_hex_lower_bytes(digest@);
            assert(text@.take(7) =~= "sha256:"@);
            assert(text@.skip(7) =~= hex@);
        }
        ApiTokenHash(text)
    }

    /// Accepts `sha256:` followed by exactly 64 hexadecimal bytes.
    pub fn parse(value: String) -> (r: Result<Self, String>)
        ensures
            r is Ok <==> valid_token_hash(value@),
            r matches Ok(h) ==> h@ == value@,
            !has_prefix(value@, "sha256:"@) ==> is_err_with(
                r,
                "API token hash must start with sha256:"@,
            ),
            has_prefix(value@, "sha256:"@) && !valid_token_hash(value@) ==> is_err_with(
                r,
                "API token hash must contain a SHA-256 hex digest"@,
            ),
    {
        proof {
            reveal_strlit("sha256:");
        }
        let v = chars_of(value.as_str());
        let p = chars_of("sha256:");
        if !starts_with_chars(v.as_slice(), p.as_slice()) {
            return Err(owned("API token hash must start with sha256:"));
        }
        let hex = string_from_chars(sub_chars(v.as_slice(), 7, v.len()).as_slice());
        assert(hex@ =~= value@.skip(7));
        if str_byte_len(hex.as_str()) != 64 || !bytes_all_hex(hex.as_str().as_bytes()) {
            return Err(owned("API token hash must contain a SHA-256 hex digest"));
        }
        Ok(ApiTokenHash(value))
    }

    pub fn as_str(&self) -> (r: &str)
        ensures
            r@ == self@,
            valid_token_hash(r@),
    {
        proof {
            use_type_invariant(self);
        }
        self.0.as_str()
    }
}

/// A human-chosen client name: trimmed, non-empty, at most 128 characters.
#[derive(Debug, PartialEq, Eq)]
pub struct ApiClientName(String);

/// A trimmed client name is kept when it has 1 to 128 characters.
pub open spec fn valid_client_name(value: Seq<char>) -> bool {
    trim(value).len() > 0 && trim(value).len() <= 128
}

impl View for ApiClientName {
    type V = Seq<char>;

    closed spec fn view(&self) -> Seq<char> {
        self.0@
    }
}

impl Clone for ApiClientName {
    fn clone(&self) -> (r: Self)
        ensures
            r@ == self@,
    {
        proof {
            use_type_invariant(self);
        }
        ApiClientName(self.0.clone())
    }
}

impl ApiClientName {
    #[verifier::type_invariant]
    closed spec fn inv(self) -> bool {
        self.0@ == trim(self.0@) && valid_client_name(self.0@)
    }

    /// Trims `value` and accepts 1 to 128 characters.
    pub fn parse(value: String) -> (r: Result<Self, String>)
        ensures
            r is Ok <==> valid_client_name(value@),
            r matches Ok(n) ==> n@ == trim(value@),
            trim(value@).len() == 0 ==> is_err_with(r, "client name is required"@),
            trim(value@).len() > 128 ==> is_err_with(
                r,
                "client name must not exceed 128 characters"@,
            ),
    {
        let v = chars_of(value.as_str());
        let t = crate::text::trim_chars(v.as_slice());
        if t.len() == 0 {
            return Err(owned("client name is required"));
        }
        if t.len() > 128 {
            return Err(owned("client name must not exceed 128 characters"));
        }
        proof {
            lemma_trim_shape(value@);
        }
        Ok(ApiClientName(string_from_chars(t.as_slice())))
    }

    pub fn as_str(&self) -> (r: &str)
        ensures
            r@ == self@,
            valid_client_name(r@),
    {
        proof {
            use_type_invariant(self);
        }
        self.0.as_str()
    }

    /// The name as an owned string (its display form).
    pub fn to_string(&self) -> (r: String)
        ensures
            r@ == self@,
    {
        owned(self.0.as_str())
    }
}

} // verus!
