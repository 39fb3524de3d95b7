//! Opaque identifiers of the form `<prefix><32 hex digits>`.

use vstd::prelude::*;
use vstd::utf8::encode_utf8;
use crate::primitives::{hex_lower, is_hex_of_16_bytes, lemma_hex_lower_bytes, uuid_v4_simple};
use crate::text::{all_hex, byte_len, bytes_all_hex, chars_of, concat3, concat_str, has_prefix, starts_with_chars, str_byte_len, string_from_chars, sub_chars};

verus! {

/// The shape of an identifier: `prefix` followed by 32 hexadecimal bytes.
pub open spec fn valid_prefixed_id(v: Seq<char>, prefix: Seq<char>) -> bool {
    &&& has_prefix(v, prefix)
    &&& byte_len(v.skip(prefix.len() as int)) == 32
    &&& all_hex(encode_utf8(v.skip(prefix.len() as int)))
}

/// The message for an identifier that lacks its prefix, or whose suffix is not 32 hex bytes.
pub open spec fn prefixed_id_error(v: Seq<char>, name: Seq<char>, prefix: Seq<char>) -> Seq<char> {
    if !has_prefix(v, prefix) {
        name + " must start with "@ + prefix
    } else {
        name + " must end with a 32-character lowercase UUID hex string"@
    }
}

/// Checks `value` against `prefix` followed by 32 hexadecimal bytes.
pub fn parse_prefixed_id(value: String, name: &str, prefix: &str) -> (r: Result<String, String>)
    ensures
        r is Ok <==> valid_prefixed_id(value@, prefix@),
        r matches Ok(v) ==> v@ == value@,
        r matches Err(e) ==> e@ == prefixed_id_error(value@, name@, prefix@),
{
    let v = chars_of(value.as_str());
    let p = chars_of(prefix);
    if !starts_with_chars(v.as_slice(), p.as_slice()) {
        return Err(concat3(name, " must start with ", prefix));
    }
    let suffix = string_from_chars(sub_chars(v.as_slice(), p.len(), v.len()).as_slice());
    assert(suffix@ =~= value@.skip(prefix@.len() as int));
    if str_byte_len(suffix.as_str()) != 32 || !bytes_all_hex(suffix.as_str().as_bytes()) {
        return Err(concat_str(name, " must end with a 32-character lowercase UUID hex string"));
    }
    Ok(value)
}

/// `prefix` followed by a fresh random UUID in simple form; always well-shaped.
pub fn generate_prefixed_id(prefix: &str) -> (r: String)
    ensures
        valid_prefixed_id(r@, prefix@),
        is_hex_of_16_bytes(r@.skip(prefix@.len() as int)),
{
    let u = uuid_v4_simple();
    let r = concat_str(prefix, u.as_str());
    proof {
        let b = choose|b: Seq<u8>| b.len() == 16 && u@ == hex_lower(b);
        lemma_hex_lower_bytes(b);
        assert(r@.take(prefix@.len() as int) =~= prefix@);
        assert(r@.skip(prefix@.len() as int) =~= u@);
    }
    r
}

/// Identifier with prefix `clt_`.
#[derive(Debug, Clone, PartialEq, Eq, Hash)]
pub struct ApiClientId(String);

impl View for ApiClientId {
    type V = Seq<char>;

    closed spec fn view(&self) -> Seq<char> {
        self.0@
    }
}

impl ApiClientId {
    pub const PREFIX: &'static str = "clt_";

    /// A fresh identifier; it always has the shape `parse` accepts.
    pub fn generate() -> (r: Self)
        ensures
            valid_prefixed_id(r@, "clt_"@),
    {
        ApiClientId(generate_prefixed_id("clt_"))
    }

    /// Accepts `clt_` followed by 32 hexadecimal bytes.
    pub fn parse(value: String) -> (r: Result<Self, String>)
        ensures
            r is Ok <==> valid_prefixed_id(value@, "clt_"@),
            r matches Ok(id) ==> id@ == value@,
            r matches Err(e) ==> e@ == prefixed_id_error(value@, "ApiClientId"@, "clt_"@),
    {
        match parse_prefixed_id(value, "ApiClientId", "clt_") {
            Ok(v) => Ok(ApiClientId(v)),
            Err(e) => Err(e),
        }
    }

    pub fn as_str(&self) -> (r: &str)
        ensures
            r@ == self@,
    {
        self.0.as_str()
    }

    /// The identifier as an owned string (its display form).
    pub fn to_string(&self) -> (r: String)
        ensures
            r@ == self@,
    {
        crate::text::owned(self.0.as_str())
    }
}

/// Identifier with prefix `thr_`.
#[derive(Debug, Clone, PartialEq, Eq, Hash)]
pub struct VaultThreadId(String);

impl View for VaultThreadId {
    type V = Seq<char>;

    closed spec fn view(&self) -> Seq<char> {
        self.0@
    }
}

impl VaultThreadId {
    pub const PREFIX: &'static str = "thr_";

    /// A fresh identifier; it always has the shape `parse` accepts.
    pub fn generate() -> (r: Self)
        ensures
            valid_prefixed_id(r@, "thr_"@),
    {
        VaultThreadId(generate_prefixed_id("thr_"))
    }

    /// Accepts `thr_` followed by 32 hexadecimal bytes.
    pub fn parse(value: String) -> (r: Result<Self, String>)
        ensures
            r is Ok <==> valid_prefixed_id(value@, "thr_"@),
            r matches Ok(id) ==> id@ == value@,
            r matches Err(e) ==> e@ == prefixed_id_error(value@, "VaultThreadId"@, "thr_"@),
    {
        match parse_prefixed_id(value, "VaultThreadId", "thr_") {
            Ok(v) => Ok(VaultThreadId(v)),
            Err(e) => Err(e),
        }
    }

    pub fn as_str(&self) -> (r: &str)
        ensures
            r@ == self@,
    {
        self.0.as_str()
    }

    /// The identifier as an owned string (its display form).
    pub fn to_string(&self) -> (r: String)
        ensures
            r@ == self@,
    {
        crate::text::owned(self.0.as_str())
    }
}

/// Identifier with prefix `evt_`.
#[derive(Debug, Clone, PartialEq, Eq, Hash)]
pub struct VaultEventId(String);

impl View for VaultEventId {
    type V = Seq<char>;

    closed spec fn view(&self) -> Seq<char> {
        self.0@
    }
}

impl VaultEventId {
    pub const PREFIX: &'static str = "evt_";

    /// A fresh identifier; it always has the shape `parse` accepts.
    pub fn generate() -> (r: Self)
        ensures
            valid_prefixed_id(r@, "evt_"@),
    {
        VaultEventId(generate_prefixed_id("evt_"))
    }

    /// Accepts `evt_` followed by 32 hexadecimal bytes.
    pub fn parse(value: String) -> (r: Result<Self, String>)
        ensures
            r is Ok <==> valid_prefixed_id(value@, "evt_"@),
            r matches Ok(id) ==> id@ == value@,
            r matches Err(e) ==> e@ == prefixed_id_error(value@, "VaultEventId"@, "evt_"@),
    {
        match parse_prefixed_id(value, "VaultEventId", "evt_") {
            Ok(v) => Ok(VaultEventId(v)),
            Err(e) => Err(e),
        }
    }

    pub fn as_str(&self) -> (r: &str)
        ensures
            r@ == self@,
    {
        self.0.as_str()
    }

    /// The identifier as an owned string (its display form).
    pub fn to_string(&self) -> (r: String)
        ensures
            r@ == self@,
    {
        crate::text::owned(self.0.as_str())
    }
}

/// Identifier with prefix `shr_`.
#[derive(Debug, Clone, PartialEq, Eq, Hash)]
pub struct VaultShareId(String);

impl View for VaultShareId {
    type V = Seq<char>;

    closed spec fn view(&self) -> Seq<char> {
        self.0@
    }
}

impl VaultShareId {
    pub const PREFIX: &'static str = "shr_";

    /// A fresh identifier; it always has the shape `parse` accepts.
    pub fn generate() -> (r: Self)
        ensures
            valid_prefixed_id(r@, "shr_"@),
    {
        VaultShareId(generate_prefixed_id("shr_"))
    }

    /// Accepts `shr_` followed by 32 hexadecimal bytes.
    pub fn parse(value: String) -> (r: Result<Self, String>)
        ensures
            r is Ok <==> valid_prefixed_id(value@, "shr_"@),
            r matches Ok(id) ==> id@ == value@,
            r matches Err(e) ==> e@ == prefixed_id_error(value@, "VaultShareId"@, "shr_"@),
    {
        match parse_prefixed_id(value, "VaultShareId", "shr_") {
            Ok(v) => Ok(VaultShareId(v)),
            Err(e) => Err(e),
        }
    }

    pub fn as_str(&self) -> (r: &str)
        ensures
            r@ == self@,
    {
        self.0.as_str()
    }

    /// The identifier as an owned string (its display form).
    pub fn to_string(&self) -> (r: String)
        ensures
            r@ == self@,
    {
        crate::text::owned(self.0.as_str())
    }
}

/// Identifier with prefix `hnd_`.
#[derive(Debug, Clone, PartialEq, Eq, Hash)]
pub struct VaultHandoffId(String);

impl View for VaultHandoffId {
    type V = Seq<char>;

    closed spec fn view(&self) -> Seq<char> {
        self.0@
    }
}

impl VaultHandoffId {
    pub const PREFIX: &'static str = "hnd_";

    /// A fresh identifier; it always has the shape `parse` accepts.
    pub fn generate() -> (r: Self)
        ensures
            valid_prefixed_id(r@, "hnd_"@),
    {
        VaultHandoffId(generate_prefixed_id("hnd_"))
    }

    /// Accepts `hnd_` followed by 32 hexadecimal bytes.
    pub fn parse(value: String) -> (r: Result<Self, String>)
        ensures
            r is Ok <==> valid_prefixed_id(value@, "hnd_"@),
            r matches Ok(id) ==> id@ == value@,
            r matches Err(e) ==> e@ == prefixed_id_error(value@, "VaultHandoffId"@, "hnd_"@),
    {
        match parse_prefixed_id(value, "VaultHandoffId", "hnd_") {
            Ok(v) => Ok(VaultHandoffId(v)),
            Err(e) => Err(e),
        }
    }

    pub fn as_str(&self) -> (r: &str)
        ensures
            r@ == self@,
    {
        self.0.as_str()
    }

    /// The identifier as an owned string (its display form).
    pub fn to_string(&self) -> (r: String)
        ensures
            r@ == self@,
    {
        crate::text::owned(self.0.as_str())
    }
}

} // verus!
