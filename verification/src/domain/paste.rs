//! Pastebin value types.

use vstd::prelude::*;
use vstd::utf8::encode_utf8;
use crate::text::{
    all_lower_or_digit, byte_len, bytes_all_lower_or_digit, concat3, decimal, owned,
    str_byte_len, usize_to_decimal, string_from_chars,
};

verus! {

/// Largest paste accepted, in bytes.
pub const MAX_PASTE_BYTES: usize = 256 * 1024;
/// Length of a paste identifier, in bytes.
pub const PASTE_ID_LEN: usize = 8;

/// Why a paste identifier was refused.
#[derive(Debug, Clone, PartialEq, Eq)]
pub enum PasteIdError {
    InvalidLength { expected: usize, actual: usize },
    InvalidCharacters,
}

impl PasteIdError {
    /// The human-readable message of the error.
    pub fn to_string(&self) -> (r: String)
        ensures
            r@ == paste_id_error_text(*self),
    {
        match self {
            PasteIdError::InvalidLength { expected, actual } => {
                let e = usize_to_decimal(*expected);
                let a = usize_to_decimal(*actual);
                let head = concat3("paste id must be ", e.as_str(), " characters, got ");
                concat3(head.as_str(), a.as_str(), "")
            },
            PasteIdError::InvalidCharacters => owned(
                "paste id must contain only lowercase letters and digits",
            ),
        }
    }
}

pub open spec fn paste_id_error_text(e: PasteIdError) -> Seq<char> {
    match e {
        PasteIdError::InvalidLength { expected, actual } => "paste id must be "@ + decimal(
            expected as nat,
        ) + " characters, got "@ + decimal(actual as nat) + ""@,
        PasteIdError::InvalidCharacters => "paste id must contain only lowercase letters and digits"@,
    }
}

/// A paste identifier: eight bytes, each a lowercase ASCII letter or digit.
#[derive(Debug, PartialEq, Eq)]
pub struct PasteId(String);

/// The byte-level rule a paste identifier follows.
pub open spec fn valid_paste_id(value: Seq<char>) -> bool {
    byte_len(value) == 8 && all_lower_or_digit(encode_utf8(value))
}

impl Clone for PasteId {
    fn clone(&self) -> (r: Self)
        ensures
            r@ == self@,
    {
        proof {
            use_type_invariant(self);
        }
        PasteId(self.0.clone())
    }
}

impl View for PasteId {
    type V = Seq<char>;

    closed spec fn view(&self) -> Seq<char> {
        self.0@
    }
}

/// The character at position `i` of the identifier alphabet
/// `abcdefghijklmnopqrstuvwxyz0123456789`.
pub open spec fn paste_alphabet_char(i: int) -> char {
    if i < 26 {
        (('a' as u8) + i) as char
    } else {
        (('0' as u8) + (i - 26)) as char
    }
}

impl PasteId {
    #[verifier::type_invariant]
    closed spec fn inv(self) -> bool {
        valid_paste_id(self.0@)
    }

    /// A fresh identifier of eight characters drawn at random from the
    /// lowercase letters and digits; it always has the shape `parse` accepts.
    pub fn generate() -> (r: Self)
        ensures
            valid_paste_id(r@),
            r@.len() == 8,
            forall|i: int| 0 <= i < 8 ==> exists|k: int| 0 <= k < 36 && #[trigger] r@[i] == paste_alphabet_char(k),
    {
        let mut chars: Vec<char> = Vec::new();
        let mut n: usize = 0;
        while n < PASTE_ID_LEN
            invariant
                n <= 8,
                chars@.len() == n,
                forall|i: int| 0 <= i < n ==> exists|k: int| 0 <= k < 36 && #[trigger] chars@[i] == paste_alphabet_char(k),
            decreases 8 - n,
        {
            let index = crate::primitives::random_index(36);
            let c = if index < 26 {
                ((0x61u8 + index as u8) as char)
            } else {
                ((0x30u8 + (index - 26) as u8) as char)
            };
            assert(c == paste_alphabet_char(index as int));
            chars.push(c);
            n = n + 1;
        }
        let s = string_from_chars(chars.as_slice());
        proof {
            assert forall|i: int| 0 <= i < s@.len() implies '\0' <= #[trigger] s@[i] <= '\u{7f}' by {
                let k = choose|k: int| 0 <= k < 36 && s@[i] == paste_alphabet_char(k);
            }
            assert(vstd::utf8::is_ascii_chars(s@));
            vstd::utf8::is_ascii_chars_encode_utf8(s@);
            assert forall|i: int| 0 <= i < encode_utf8(s@).len() implies crate::text::is_lower_or_digit_byte(#[trigger] encode_utf8(s@)[i]) by {
                let k = choose|k: int| 0 <= k < 36 && s@[i] == paste_alphabet_char(k);
                assert(s@[i] as u8 == encode_utf8(s@)[i]);
            }
        }
        PasteId(s)
    }

    /// Accepts exactly eight lowercase ASCII letters or digits.
    pub fn parse(value: String) -> (r: Result<Self, PasteIdError>)
        ensures
            r is Ok <==> valid_paste_id(value@),
            r matches Ok(id) ==> id@ == value@,
            byte_len(value@) != 8 ==> r == Err::<Self, PasteIdError>(
                PasteIdError::InvalidLength { expected: 8, actual: byte_len(value@) as usize },
            ),
            byte_len(value@) == 8 && !valid_paste_id(value@) ==> r == Err::<Self, PasteIdError>(
                PasteIdError::InvalidCharacters,
            ),
    {
        let n = str_byte_len(value.as_str());
        if n != PASTE_ID_LEN {
            return Err(PasteIdError::InvalidLength { expected: PASTE_ID_LEN, actual: n });
        }
        if !bytes_all_lower_or_digit(value.as_str().as_bytes()) {
            return Err(PasteIdError::InvalidCharacters);
        }
        Ok(PasteId(value))
    }

    pub fn as_str(&self) -> (r: &str)
        ensures
            r@ == self@,
            valid_paste_id(r@),
    {
        proof {
            use_type_invariant(self);
        }
        self.0.as_str()
    }

    /// The identifier as an owned string (its display form).
    pub fn to_string(&self) -> (r: String)
        ensures
            r@ == self@,
    {
        owned(self.0.as_str())
    }
}

/// Why paste content was refused.
#[derive(Debug, Clone, PartialEq, Eq)]
pub enum PasteContentError {
    Empty,
    TooLarge { max_bytes: usize, actual_bytes: usize },
}

pub open spec fn paste_content_error_text(e: PasteContentError) -> Seq<char> {
    match e {
        PasteContentError::Empty => "paste content is required"@,
        PasteContentError::TooLarge { max_bytes, actual_bytes } => "paste must be at most "@
            + decimal(max_bytes as nat) + " bytes"@,
    }
}

impl PasteContentError {
    /// The human-readable message of the error.
    pub fn to_string(&self) -> (r: String)
        ensures
            r@ == paste_content_error_text(*self),
    {
        match self {
            PasteContentError::Empty => owned("paste content is required"),
            PasteContentError::TooLarge { max_bytes, actual_bytes } => {
                let m = usize_to_decimal(*max_bytes);
                concat3("paste must be at most ", m.as_str(), " bytes")
            },
        }
    }
}

/// Paste body: non-empty, at most 256 KiB.
#[derive(Debug, PartialEq, Eq)]
pub struct PasteContent(String);

impl Clone for PasteContent {
    fn clone(&self) -> (r: Self)
        ensures
            r@ == self@,
    {
        proof {
            use_type_invariant(self);
        }
        PasteContent(self.0.clone())
    }
}

impl View for PasteContent {
    type V = Seq<char>;

    closed spec fn view(&self) -> Seq<char> {
        self.0@
    }
}

impl PasteContent {
    #[verifier::type_invariant]
    closed spec fn inv(self) -> bool {
        self.0@.len() > 0 && byte_len(self.0@) <= 256 * 1024
    }

    /// Accepts non-empty content of at most 262 144 bytes, unchanged.
    pub fn parse(value: String) -> (r: Result<Self, PasteContentError>)
        ensures
            r is Ok <==> value@.len() > 0 && byte_len(value@) <= 256 * 1024,
            r matches Ok(c) ==> c@ == value@,
            value@.len() == 0 ==> r == Err::<Self, PasteContentError>(PasteContentError::Empty),
            value@.len() > 0 && byte_len(value@) > 256 * 1024 ==> r == Err::<
                Self,
                PasteContentError,
            >(
                PasteContentError::TooLarge {
                    max_bytes: 262144usize,
                    actual_bytes: byte_len(value@) as usize,
                },
            ),
    {
        if value.as_str().is_empty() {
            return Err(PasteContentError::Empty);
        }
        let n = str_byte_len(value.as_str());
        if n > MAX_PASTE_BYTES {
            return Err(PasteContentError::TooLarge { max_bytes: MAX_PASTE_BYTES, actual_bytes: n });
        }
        Ok(PasteContent(value))
    }

    /// Size of the content in bytes.
    pub fn len(&self) -> (n: usize)
        ensures
            n == byte_len(self@),
            0 < n <= 256 * 1024,
    {
        proof {
            use_type_invariant(self);
            if byte_len(self@) == 0 {
                vstd::utf8::encode_utf8_first_scalar(self@);
            }
        }
        str_byte_len(self.0.as_str())
    }

    /// Always false: accepted content is never empty.
    pub fn is_empty(&self) -> (b: bool)
        ensures
            b == (self@.len() == 0),
            !b,
    {
        proof {
            use_type_invariant(self);
        }
        self.0.as_str().is_empty()
    }

    pub fn as_str(&self) -> (r: &str)
        ensures
            r@ == self@,
    {
        self.0.as_str()
    }

    /// Gives back the content as a `String`.
    pub fn into_string(self) -> (r: String)
        ensures
            r@ == self@,
    {
        self.0
    }
}

} // verus!
