//! Vault value types: share kinds, visibilities, tokens and event fields.

use vstd::prelude::*;
use vstd::utf8::{encode_utf8, is_ascii_chars_encode_utf8};
use crate::primitives::{base64url_encode, base64url_nopad, lemma_base64url_shape, os_random_32};
use crate::text::{
    all_base64url, byte_len, bytes_all_base64url, concat3, concat_str, contains_whitespace, decimal,
    is_err_with, is_ws, owned, str_byte_len, str_eq, strip_nul_chars, trim, trim_str,
    usize_to_decimal, without_nul,
};

verus! {

/// Who may read a shared thread, and how.
#[derive(Debug, Clone, Copy, PartialEq, Eq)]
pub enum ShareKind {
    Private,
    Public,
    SecretLink,
    PasswordProtected,
}

/// The kebab-case text of each share kind.
pub open spec fn share_kind_text(k: ShareKind) -> Seq<char> {
    match k {
        ShareKind::Private => "private"@,
        ShareKind::Public => "public"@,
        ShareKind::SecretLink => "secret-link"@,
        ShareKind::PasswordProtected => "password-protected"@,
    }
}

impl ShareKind {
    /// Reads one of `private`, `public`, `secret-link`, `password-protected`.
    pub fn parse(value: &str) -> (r: Result<Self, String>)
        ensures
            r is Ok <==> (value@ == "private"@ || value@ == "public"@ || value@ == "secret-link"@
                || value@ == "password-protected"@),
            r matches Ok(k) ==> share_kind_text(k) == value@,
            r is Err ==> is_err_with(r, "unknown share kind: "@ + value@),
    {
        if str_eq(value, "private") {
            Ok(ShareKind::Private)
        } else if str_eq(value, "public") {
            Ok(ShareKind::Public)
        } else if str_eq(value, "secret-link") {
            Ok(ShareKind::SecretLink)
        } else if str_eq(value, "password-protected") {
            Ok(ShareKind::PasswordProtected)
        } else {
            Err(concat_str("unknown share kind: ", value))
        }
    }

    pub fn as_str(self) -> (r: &'static str)
        ensures
            r@ == share_kind_text(self),
    {
        match self {
            ShareKind::Private => "private",
            ShareKind::Public => "public",
            ShareKind::SecretLink => "secret-link",
            ShareKind::PasswordProtected => "password-protected",
        }
    }

    /// Secret links and password-protected shares are reached through a token.
    pub fn requires_token(self) -> (b: bool)
        ensures
            b == (self == ShareKind::SecretLink || self == ShareKind::PasswordProtected),
    {
        match self {
            ShareKind::SecretLink | ShareKind::PasswordProtected => true,
            _ => false,
        }
    }
}

/// Default visibility of a thread.
#[derive(Debug, Clone, Copy, PartialEq, Eq)]
pub enum VaultVisibility {
    Private,
    Public,
}

pub open spec fn visibility_text(v: VaultVisibility) -> Seq<char> {
    match v {
        VaultVisibility::Private => "private"@,
        VaultVisibility::Public => "public"@,
    }
}

impl VaultVisibility {
    /// Reads `private` or `public`.
    pub fn parse(value: &str) -> (r: Result<Self, String>)
        ensures
            r is Ok <==> (value@ == "private"@ || value@ == "public"@),
            r matches Ok(v) ==> visibility_text(v) == value@,
            r is Err ==> is_err_with(r, "unknown vault visibility: "@ + value@),
    {
        if str_eq(value, "private") {
            Ok(VaultVisibility::Private)
        } else if str_eq(value, "public") {
            Ok(VaultVisibility::Public)
        } else {
            Err(concat_str("unknown vault visibility: ", value))
        }
    }

    pub fn as_str(self) -> (r: &'static str)
        ensures
            r@ == visibility_text(self),
    {
        match self {
            VaultVisibility::Private => "private",
            VaultVisibility::Public => "public",
        }
    }
}

/// The shape of a share token: exactly 43 URL-safe base64 bytes.
pub open spec fn valid_share_token(v: Seq<char>) -> bool {
    byte_len(v) == 43 && all_base64url(encode_utf8(v))
}

/// The secret part of a share URL.
#[derive(Debug, PartialEq, Eq)]
pub struct ShareToken(String);

impl View for ShareToken {
    type V = Seq<char>;

    closed spec fn view(&self) -> Seq<char> {
        self.0@
    }
}

impl Clone for ShareToken {
    fn clone(&self) -> (r: Self)
        ensures
            r@ == self@,
    {
        proof {
            use_type_invariant(self);
        }
        ShareToken(self.0.clone())
    }
}

impl ShareToken {
    #[verifier::type_invariant]
    closed spec fn inv(self) -> bool {
        valid_share_token(self.0@)
    }

    /// Mints a token from 32 random bytes; it always has the shape `parse` accepts.
    pub fn generate() -> (t: Self)
        ensures
            valid_share_token(t@),
            exists|b: Seq<u8>| b.len() == 32 && t@ == base64url_nopad(b),
    {
        let bytes = os_random_32();
        let text = base64url_encode(bytes.as_slice());
        proof {
            lemma_base64url_shape(bytes@);
            is_ascii_chars_encode_utf8(text@);
        }
        ShareToken(text)
    }

    /// Accepts exactly 43 URL-safe base64 bytes.
    pub fn parse(value: String) -> (r: Result<Self, String>)
        ensures
            r is Ok <==> valid_share_token(value@),
            r matches Ok(t) ==> t@ == value@,
            byte_len(value@) != 43 ==> is_err_with(
                r,
                "share token must be 43 base64url characters"@,
            ),
            byte_len(value@) == 43 && !valid_share_token(value@) ==> is_err_with(
                r,
                "share token must be base64url without padding"@,
            ),
    {
        if str_byte_len(value.as_str()) != 43 {
            return Err(owned("share token must be 43 base64url characters"));
        }
        if !bytes_all_base64url(value.as_str().as_bytes()) {
            return Err(owned("share token must be base64url without padding"));
        }
        Ok(ShareToken(value))
    }

    pub fn as_str(&self) -> (r: &str)
        ensures
            r@ == self@,
            valid_share_token(r@),
    {
        proof {
            use_type_invariant(self);
        }
        self.0.as_str()
    }

    /// The token as an owned string (its display form).
    pub fn to_string(&self) -> (r: String)
        ensures
            r@ == self@,
    {
        owned(self.0.as_str())
    }
}

/// A NUL-free field is kept when it is not blank and at most `max` bytes long.
pub open spec fn bounded_ok(value: Seq<char>, max: nat) -> bool {
    trim(without_nul(value)).len() > 0 && byte_len(without_nul(value)) <= max
}

/// The message for a field that `parse_non_empty_bounded` refuses.
pub open spec fn bounded_error(value: Seq<char>, field: Seq<char>, max: nat) -> Seq<char> {
    if trim(without_nul(value)).len() == 0 {
        field + " must not be empty"@
    } else {
        field + " must not exceed "@ + decimal(max) + " bytes"@
    }
}

/// Drops NUL characters, then requires a non-blank value of at most `max_len` bytes.
pub fn parse_non_empty_bounded(value: String, field: &str, max_len: usize) -> (r: Result<
    String,
    String,
>)
    ensures
        r is Ok <==> bounded_ok(value@, max_len as nat),
        r matches Ok(v) ==> v@ == without_nul(value@),
        r matches Err(e) ==> e@ == bounded_error(value@, field@, max_len as nat),
{
    let value = strip_nul_chars(value.as_str());
    let t = trim_str(value.as_str());
    if t.as_str().is_empty() {
        return Err(concat_str(field, " must not be empty"));
    }
    if str_byte_len(value.as_str()) > max_len {
        let n = usize_to_decimal(max_len);
        let head = concat_str(field, " must not exceed ");
        return Err(concat3(head.as_str(), n.as_str(), " bytes"));
    }
    Ok(value)
}

/// The session identifier a coding agent reports: NUL-free, not blank, at most 512 bytes.
#[derive(Debug, Clone, PartialEq, Eq)]
pub struct ExternalSessionId(String);

impl View for ExternalSessionId {
    type V = Seq<char>;

    closed spec fn view(&self) -> Seq<char> {
        self.0@
    }
}

impl ExternalSessionId {
    pub fn parse(value: String) -> (r: Result<Self, String>)
        ensures
            r is Ok <==> bounded_ok(value@, 512),
            r matches Ok(v) ==> v@ == without_nul(value@),
            r matches Err(e) ==> e@ == bounded_error(value@, "external_session_id"@, 512),
    {
        match parse_non_empty_bounded(value, "external_session_id", 512) {
            Ok(v) => Ok(ExternalSessionId(v)),
            Err(e) => Err(e),
        }
    }

    pub fn as_str(&self) -> (r: &str)
        ensures
            r@ == self@,
    {
        self.0.as_str()
    }
}

/// The event identifier a coding agent reports: NUL-free, not blank, at most 512 bytes.
#[derive(Debug, Clone, PartialEq, Eq)]
pub struct ExternalEventId(String);

impl View for ExternalEventId {
    type V = Seq<char>;

    closed spec fn view(&self) -> Seq<char> {
        self.0@
    }
}

impl ExternalEventId {
    pub fn parse(value: String) -> (r: Result<Self, String>)
        ensures
            r is Ok <==> bounded_ok(value@, 512),
            r matches Ok(v) ==> v@ == without_nul(value@),
            r matches Err(e) ==> e@ == bounded_error(value@, "external_event_id"@, 512),
    {
        match parse_non_empty_bounded(value, "external_event_id", 512) {
            Ok(v) => Ok(ExternalEventId(v)),
            Err(e) => Err(e),
        }
    }

    pub fn as_str(&self) -> (r: &str)
        ensures
            r@ == self@,
    {
        self.0.as_str()
    }
}

/// The content hash that deduplicates events: bounded to 256 bytes, no whitespace.
#[derive(Debug, Clone, PartialEq, Eq)]
pub struct EventHash(String);

impl View for EventHash {
    type V = Seq<char>;

    closed spec fn view(&self) -> Seq<char> {
        self.0@
    }
}

pub open spec fn has_ws(s: Seq<char>) -> bool {
    exists|i: int| 0 <= i < s.len() && is_ws(#[trigger] s[i])
}

impl EventHash {
    pub fn parse(value: String) -> (r: Result<Self, String>)
        ensures
            r is Ok <==> bounded_ok(value@, 256) && !has_ws(without_nul(value@)),
            r matches Ok(v) ==> v@ == without_nul(value@),
            !bounded_ok(value@, 256) ==> is_err_with(
                r,
                bounded_error(value@, "event_hash"@, 256),
            ),
            bounded_ok(value@, 256) && has_ws(without_nul(value@)) ==> is_err_with(
                r,
                "event_hash must not contain whitespace"@,
            ),
    {
        let value = match parse_non_empty_bounded(value, "event_hash", 256) {
            Ok(v) => v,
            Err(e) => return Err(e),
        };
        if contains_whitespace(value.as_str()) {
            return Err(owned("event_hash must not contain whitespace"));
        }
        Ok(EventHash(value))
    }

    pub fn as_str(&self) -> (r: &str)
        ensures
            r@ == self@,
    {
        self.0.as_str()
    }
}

/// The role of an event (`user`, `assistant`, ...): NUL-free, not blank, at most 64 bytes.
#[derive(Debug, Clone, PartialEq, Eq)]
pub struct VaultEventRole(String);

impl View for VaultEventRole {
    type V = Seq<char>;

    closed spec fn view(&self) -> Seq<char> {
        self.0@
    }
}

impl VaultEventRole {
    pub fn parse(value: String) -> (r: Result<Self, String>)
        ensures
            r is Ok <==> bounded_ok(value@, 64),
            r matches Ok(v) ==> v@ == without_nul(value@),
            r matches Err(e) ==> e@ == bounded_error(value@, "event role"@, 64),
    {
        match parse_non_empty_bounded(value, "event role", 64) {
            Ok(v) => Ok(VaultEventRole(v)),
            Err(e) => Err(e),
        }
    }

    pub fn as_str(&self) -> (r: &str)
        ensures
            r@ == self@,
    {
        self.0.as_str()
    }
}

/// The kind of an event (`message`, `tool_call`, ...): NUL-free, not blank, at most 64 bytes.
#[derive(Debug, Clone, PartialEq, Eq)]
pub struct VaultEventKind(String);

impl View for VaultEventKind {
    type V = Seq<char>;

    closed spec fn view(&self) -> Seq<char> {
        self.0@
    }
}

impl VaultEventKind {
    pub fn parse(value: String) -> (r: Result<Self, String>)
        ensures
            r is Ok <==> bounded_ok(value@, 64),
            r matches Ok(v) ==> v@ == without_nul(value@),
            r matches Err(e) ==> e@ == bounded_error(value@, "event kind"@, 64),
    {
        match parse_non_empty_bounded(value, "event kind", 64) {
            Ok(v) => Ok(VaultEventKind(v)),
            Err(e) => Err(e),
        }
    }

    pub fn as_str(&self) -> (r: &str)
        ensures
            r@ == self@,
    {
        self.0.as_str()
    }
}

/// Text that Postgres `TEXT` columns accept: every NUL removed.
#[derive(Debug, Clone, PartialEq, Eq)]
pub struct PostgresSafeText(String);

impl View for PostgresSafeText {
    type V = Seq<char>;

    closed spec fn view(&self) -> Seq<char> {
        self.0@
    }
}

impl PostgresSafeText {
    pub fn parse(value: String) -> (r: Self)
        ensures
            r@ == without_nul(value@),
    {
        PostgresSafeText(strip_nul_chars(value.as_str()))
    }

    pub fn as_str(&self) -> (r: &str)
        ensures
            r@ == self@,
    {
        self.0.as_str()
    }
}

} // verus!
