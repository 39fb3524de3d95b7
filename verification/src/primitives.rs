//! Hashing, encoding and randomness: calls into outside crates, each behind
//! a small function whose contract states what the crate documents.

use vstd::prelude::*;
use vstd::utf8::{encode_utf8, is_ascii_chars, is_ascii_chars_encode_utf8};
use crate::text::{all_hex, is_base64url_byte, is_hex_byte};

verus! {

/// Lowercase hexadecimal digit of `n` (0..16).
pub open spec fn hex_digit(n: nat) -> char {
    if n < 10 {
        (('0' as u32) + n) as char
    } else {
        (('a' as u32) + (n - 10)) as char
    }
}

/// Lowercase hexadecimal encoding, two digits per byte, high nibble first.
pub open spec fn hex_lower(b: Seq<u8>) -> Seq<char>
    decreases b.len(),
{
    if b.len() == 0 {
        seq![]
    } else {
        hex_lower(b.drop_last()) + seq![
            hex_digit((b.last() / 16) as nat),
            hex_digit((b.last() % 16) as nat),
        ]
    }
}

/// The SHA-256 digest of `data`.
pub uninterp spec fn sha256(data: Seq<u8>) -> Seq<u8>;

/// The HMAC-SHA256 tag of `msg` under `key`.
pub uninterp spec fn hmac_sha256(key: Seq<u8>, msg: Seq<u8>) -> Seq<u8>;

/// Character of the URL-safe base64 alphabet for a 6-bit value.
pub open spec fn base64url_char(n: nat) -> char {
    if n < 26 {
        (('A' as u32) + n) as char
    } else if n < 52 {
        (('a' as u32) + (n - 26)) as char
    } else if n < 62 {
        (('0' as u32) + (n - 52)) as char
    } else if n == 62 {
        '-'
    } else {
        '_'
    }
}

/// URL-safe base64 encoding without padding (RFC 4648 section 5).
pub open spec fn base64url_nopad(b: Seq<u8>) -> Seq<char>
    decreases b.len(),
{
    if b.len() == 0 {
        seq![]
    } else if b.len() == 1 {
        seq![base64url_char((b[0] / 4) as nat), base64url_char(((b[0] % 4) * 16) as nat)]
    } else if b.len() == 2 {
        seq![
            base64url_char((b[0] / 4) as nat),
            base64url_char(((b[0] % 4) * 16 + b[1] / 16) as nat),
            base64url_char(((b[1] % 16) * 4) as nat),
        ]
    } else {
        seq![
            base64url_char((b[0] / 4) as nat),
            base64url_char(((b[0] % 4) * 16 + b[1] / 16) as nat),
            base64url_char(((b[1] % 16) * 4 + b[2] / 64) as nat),
            base64url_char((b[2] % 64) as nat),
        ] + base64url_nopad(b.skip(3))
    }
}

/// Standard base64 with padding (RFC 4648 section 4): the URL-safe text with
/// `+` and `/` in place of `-` and `_`, then `=` up to a multiple of four.
pub open spec fn base64_standard(b: Seq<u8>) -> Seq<char> {
    base64url_nopad(b).map_values(|c: char| if c == '-' { '+' } else if c == '_' { '/' } else { c })
        + if b.len() % 3 == 1 {
        seq!['=', '=']
    } else if b.len() % 3 == 2 {
        seq!['=']
    } else {
        seq![]
    }
}

/// The 6-bit value of a character of the URL-safe base64 alphabet.
pub open spec fn base64url_value(c: char) -> nat {
    if 'A' <= c && c <= 'Z' {
        (c as u32 - 'A' as u32) as nat
    } else if 'a' <= c && c <= 'z' {
        (c as u32 - 'a' as u32 + 26) as nat
    } else if '0' <= c && c <= '9' {
        (c as u32 - '0' as u32 + 52) as nat
    } else if c == '-' {
        62
    } else {
        63
    }
}

/// The bytes of unpadded URL-safe base64 text, four characters to three
/// bytes, a final group of two or three characters to one or two bytes.
pub open spec fn base64url_bytes(s: Seq<char>) -> Seq<u8>
    decreases s.len(),
{
    if s.len() < 2 {
        seq![]
    } else {
        let v0 = base64url_value(s[0]);
        let v1 = base64url_value(s[1]);
        let b0 = (v0 * 4 + v1 / 16) as u8;
        if s.len() == 2 {
            seq![b0]
        } else {
            let v2 = base64url_value(s[2]);
            let b1 = ((v1 % 16) * 16 + v2 / 4) as u8;
            if s.len() == 3 {
                seq![b0, b1]
            } else {
                let v3 = base64url_value(s[3]);
                seq![b0, b1, ((v2 % 4) * 64 + v3) as u8] + base64url_bytes(s.skip(4))
            }
        }
    }
}

/// The URL-safe character that a standard base64 character stands for.
pub open spec fn url_safe_char(c: char) -> char {
    if c == '+' {
        '-'
    } else if c == '/' {
        '_'
    } else {
        c
    }
}

/// The bytes of padded standard base64 text: the padding dropped and the
/// rest read as URL-safe text.
pub open spec fn base64_standard_bytes(s: Seq<char>) -> Seq<u8> {
    let unpadded = if s.len() >= 2 && s.last() == '=' && s[s.len() - 2] == '=' {
        s.take(s.len() - 2)
    } else if s.len() >= 1 && s.last() == '=' {
        s.take(s.len() - 1)
    } else {
        s
    };
    base64url_bytes(unpadded.map_values(|c: char| url_safe_char(c)))
}

proof fn lemma_base64url_value(n: nat)
    requires
        n < 64,
    ensures
        base64url_value(base64url_char(n)) == n,
        base64url_char(n) != '=' && base64url_char(n) != '+' && base64url_char(n) != '/',
{
}

proof fn lemma_base64_group(b0: u8, b1: u8, b2: u8)
    ensures
        (b0 / 4) * 4 + ((b0 % 4) * 16 + b1 / 16) / 16 == b0,
        (((b0 % 4) * 16 + b1 / 16) % 16) * 16 + ((b1 % 16) * 4 + b2 / 64) / 4 == b1,
        (((b1 % 16) * 4 + b2 / 64) % 4) * 64 + b2 % 64 == b2,
        (b0 / 4) * 4 + ((b0 % 4) * 16) / 16 == b0,
        (((b0 % 4) * 16 + b1 / 16) % 16) * 16 + ((b1 % 16) * 4) / 4 == b1,
        b0 / 4 < 64,
        (b0 % 4) * 16 + b1 / 16 < 64,
        (b1 % 16) * 4 + b2 / 64 < 64,
        b2 % 64 < 64,
        (b0 % 4) * 16 < 64,
        (b1 % 16) * 4 < 64,
{
    assert((b0 / 4) * 4 + ((b0 % 4) * 16 + b1 / 16) / 16 == b0) by (bit_vector);
    assert((((b0 % 4) * 16 + b1 / 16) % 16) * 16 + ((b1 % 16) * 4 + b2 / 64) / 4 == b1) by (bit_vector);
    assert((((b1 % 16) * 4 + b2 / 64) % 4) * 64 + b2 % 64 == b2) by (bit_vector);
    assert((b0 / 4) * 4 + ((b0 % 4) * 16) / 16 == b0) by (bit_vector);
    assert((((b0 % 4) * 16 + b1 / 16) % 16) * 16 + ((b1 % 16) * 4) / 4 == b1) by (bit_vector);
}

/// Reading back unpadded URL-safe base64 text gives the encoded bytes, and
/// the text holds no `=`, `+` or `/`.
pub proof fn lemma_base64url_roundtrip(b: Seq<u8>)
    ensures
        base64url_bytes(base64url_nopad(b)) == b,
        forall|i: int|
            0 <= i < base64url_nopad(b).len() ==> #[trigger] base64url_nopad(b)[i] != '='
                && base64url_nopad(b)[i] != '+' && base64url_nopad(b)[i] != '/',
    decreases b.len(),
{
    let e = base64url_nopad(b);
    if b.len() == 0 {
    } else if b.len() == 1 {
        lemma_base64_group(b[0], 0, 0);
        lemma_base64url_value((b[0] / 4) as nat);
        lemma_base64url_value(((b[0] % 4) * 16) as nat);
        assert(base64url_bytes(e) =~= b);
    } else if b.len() == 2 {
        lemma_base64_group(b[0], b[1], 0);
        lemma_base64url_value((b[0] / 4) as nat);
        lemma_base64url_value(((b[0] % 4) * 16 + b[1] / 16) as nat);
        lemma_base64url_value(((b[1] % 16) * 4) as nat);
        assert(base64url_bytes(e) =~= b);
    } else {
        lemma_base64_group(b[0], b[1], b[2]);
        lemma_base64url_value((b[0] / 4) as nat);
        lemma_base64url_value(((b[0] % 4) * 16 + b[1] / 16) as nat);
        lemma_base64url_value(((b[1] % 16) * 4 + b[2] / 64) as nat);
        lemma_base64url_value((b[2] % 64) as nat);
        lemma_base64url_roundtrip(b.skip(3));
        let t = base64url_nopad(b.skip(3));
        assert(e.skip(4) =~= t);
        assert(base64url_bytes(e) =~= seq![b[0], b[1], b[2]] + b.skip(3));
        assert(seq![b[0], b[1], b[2]] + b.skip(3) =~= b);
        assert forall|i: int| 0 <= i < e.len() implies #[trigger] e[i] != '=' && e[i] != '+' && e[i]
            != '/' by {
            if i >= 4 {
                assert(e[i] == t[i - 4]);
            }
        }
    }
}

/// Reading back padded standard base64 text gives the encoded bytes.
pub proof fn lemma_base64_standard_roundtrip(b: Seq<u8>)
    ensures
        base64_standard_bytes(base64_standard(b)) == b,
{
    let u = base64url_nopad(b);
    lemma_base64url_roundtrip(b);
    lemma_base64url_shape(b);
    let m = u.map_values(|c: char| if c == '-' { '+' } else if c == '_' { '/' } else { c });
    let s = base64_standard(b);
    assert(m.map_values(|c: char| url_safe_char(c)) =~= u);
    if b.len() % 3 == 1 {
        assert(s.take(s.len() - 2) =~= m);
    } else if b.len() % 3 == 2 {
        assert(s.take(s.len() - 1) =~= m);
        assert(s[s.len() - 2] == m[m.len() - 1]);
        assert(u[u.len() - 1] != '=');
    } else {
        assert(s =~= m);
        if s.len() > 0 {
            assert(u[u.len() - 1] != '=');
        }
    }
}

/// Standard base64 text determines the bytes it encodes.
pub proof fn lemma_base64_standard_injective(a: Seq<u8>, b: Seq<u8>)
    requires
        base64_standard(a) == base64_standard(b),
    ensures
        a == b,
{
    lemma_base64_standard_roundtrip(a);
    lemma_base64_standard_roundtrip(b);
}

proof fn lemma_hex_digit(n: nat)
    requires
        n < 16,
    ensures
        '\0' <= hex_digit(n) <= '\u{7f}',
        is_hex_byte(hex_digit(n) as u8),
{
}

/// The hex text of `b` has two ASCII hex digits per byte.
pub proof fn lemma_hex_lower_shape(b: Seq<u8>)
    ensures
        hex_lower(b).len() == 2 * b.len(),
        is_ascii_chars(hex_lower(b)),
        forall|i: int| 0 <= i < hex_lower(b).len() ==> is_hex_byte(#[trigger] hex_lower(b)[i] as u8),
    decreases b.len(),
{
    if b.len() > 0 {
        lemma_hex_lower_shape(b.drop_last());
        lemma_hex_digit((b.last() / 16) as nat);
        lemma_hex_digit((b.last() % 16) as nat);
        let h = hex_lower(b);
        let p = hex_lower(b.drop_last());
        assert forall|i: int| 0 <= i < h.len() implies '\0' <= #[trigger] h[i] <= '\u{7f}' && is_hex_byte(h[i] as u8) by {
            if i < p.len() {
                assert(h[i] == p[i]);
            }
        }
    }
}

/// The UTF-8 bytes of hex text are all hex digits, one byte per character.
pub proof fn lemma_hex_lower_bytes(b: Seq<u8>)
    ensures
        encode_utf8(hex_lower(b)).len() == 2 * b.len(),
        all_hex(encode_utf8(hex_lower(b))),
{
    lemma_hex_lower_shape(b);
    is_ascii_chars_encode_utf8(hex_lower(b));
}

proof fn lemma_base64url_char(n: nat)
    requires
        n < 64,
    ensures
        '\0' <= base64url_char(n) <= '\u{7f}',
        is_base64url_byte(base64url_char(n) as u8),
{
}

/// Unpadded URL-safe base64 text: its length, and that it is ASCII from the
/// URL-safe alphabet.
pub proof fn lemma_base64url_shape(b: Seq<u8>)
    ensures
        base64url_nopad(b).len() == 4 * (b.len() / 3) + (if b.len() % 3 == 0 {
            0
        } else {
            b.len() % 3 + 1
        }),
        is_ascii_chars(base64url_nopad(b)),
        forall|i: int|
            0 <= i < base64url_nopad(b).len() ==> is_base64url_byte(
                #[trigger] base64url_nopad(b)[i] as u8,
            ),
    decreases b.len(),
{
    if b.len() == 0 {
    } else if b.len() == 1 {
        lemma_base64url_char((b[0] / 4) as nat);
        lemma_base64url_char(((b[0] % 4) * 16) as nat);
    } else if b.len() == 2 {
        lemma_base64url_char((b[0] / 4) as nat);
        lemma_base64url_char(((b[0] % 4) * 16 + b[1] / 16) as nat);
        lemma_base64url_char(((b[1] % 16) * 4) as nat);
    } else {
        lemma_base64url_char((b[0] / 4) as nat);
        lemma_base64url_char(((b[0] % 4) * 16 + b[1] / 16) as nat);
        lemma_base64url_char(((b[1] % 16) * 4 + b[2] / 64) as nat);
        lemma_base64url_char((b[2] % 64) as nat);
        lemma_base64url_shape(b.skip(3));
        let head = seq![
            base64url_char((b[0] / 4) as nat),
            base64url_char(((b[0] % 4) * 16 + b[1] / 16) as nat),
            base64url_char(((b[1] % 16) * 4 + b[2] / 64) as nat),
            base64url_char((b[2] % 64) as nat),
        ];
        let t = base64url_nopad(b.skip(3));
        let e = base64url_nopad(b);
        assert(e == head + t);
        assert forall|i: int| 0 <= i < e.len() implies '\0' <= #[trigger] e[i] <= '\u{7f}' && is_base64url_byte(e[i] as u8) by {
            if i >= 4 {
                assert(e[i] == t[i - 4]);
            }
        }
    }
}

/// `hex::encode`: lowercase hexadecimal text of the bytes.
#[verifier::external_body]
pub(crate) fn hex_encode(data: &[u8]) -> (r: String)
    ensures
        r@ == hex_lower(data@),
{
    hex::encode(data)
}

/// `sha2::Sha256::digest`: the 32-byte SHA-256 digest of `data`.
#[verifier::external_body]
pub(crate) fn sha256_digest(data: &[u8]) -> (r: Vec<u8>)
    ensures
        r@ == sha256(data@),
        r@.len() == 32,
{
    <sha2::Sha256 as sha2::Digest>::digest(data).to_vec()
}

/// `hmac::Hmac<Sha256>` keyed with `key` over `msg`: the 32-byte tag.
/// `new_from_slice` accepts keys of any length for HMAC, so it never fails.
#[verifier::external_body]
pub(crate) fn hmac_sha256_tag(key: &[u8], msg: &[u8]) -> (r: Vec<u8>)
    ensures
        r@ == hmac_sha256(key@, msg@),
        r@.len() == 32,
{
    let mut mac = <hmac::Hmac<sha2::Sha256> as hmac::Mac>::new_from_slice(key).unwrap();
    hmac::Mac::update(&mut mac, msg);
    hmac::Mac::finalize(mac).into_bytes().to_vec()
}

/// `constant_time_eq::constant_time_eq`: true exactly when both byte strings are equal.
#[verifier::external_body]
pub(crate) fn bytes_eq_constant_time(a: &[u8], b: &[u8]) -> (r: bool)
    ensures
        r == (a@ == b@),
{
    constant_time_eq::constant_time_eq(a, b)
}

/// `base64::encode_config` with `URL_SAFE_NO_PAD`.
#[verifier::external_body]
pub(crate) fn base64url_encode(data: &[u8]) -> (r: String)
    ensures
        r@ == base64url_nopad(data@),
{
    base64::encode_config(data, base64::URL_SAFE_NO_PAD)
}

/// 32 bytes from the operating system's random source (`OsRng::fill_bytes`).
/// Nothing is stated of their values.
#[verifier::external_body]
pub(crate) fn os_random_32() -> (r: Vec<u8>)
    ensures
        r@.len() == 32,
{
    let mut bytes = [0u8; 32];
    rand::RngCore::fill_bytes(&mut rand::rngs::OsRng, &mut bytes);
    bytes.to_vec()
}

/// A uniformly drawn index below `bound` (`thread_rng().gen_range(0..bound)`).
/// Only its range is stated.
#[verifier::external_body]
pub(crate) fn random_index(bound: usize) -> (r: usize)
    requires
        bound > 0,
    ensures
        r < bound,
{
    rand::Rng::gen_range(&mut rand::thread_rng(), 0..bound)
}

/// `s` is the lowercase hex text of some 16 bytes.
pub open spec fn is_hex_of_16_bytes(s: Seq<char>) -> bool {
    exists|b: Seq<u8>| b.len() == 16 && s == hex_lower(b)
}

/// `uuid::Uuid::new_v4().simple()` as text: the lowercase hex of 16 random bytes.
#[verifier::external_body]
pub(crate) fn uuid_v4_simple() -> (r: String)
    ensures
        is_hex_of_16_bytes(r@),
{
    uuid::Uuid::new_v4().simple().to_string()
}

/// Whether `argon2::Argon2::default()` verifies `password` against the PHC
/// hash string `hash` (`PasswordVerifier::verify_password`); false when the
/// string does not parse as a password hash.
pub uninterp spec fn argon2_accepts(hash: Seq<char>, password: Seq<char>) -> bool;

/// Checks `password` against the PHC hash string `hash` with Argon2's default
/// parameters; a string that does not parse is refused.
#[verifier::external_body]
pub(crate) fn verify_password(hash: &str, password: &str) -> (r: bool)
    ensures
        r == argon2_accepts(hash@, password@),
{
    match argon2::PasswordHash::new(hash) {
        Ok(parsed) => argon2::PasswordVerifier::verify_password(
            &argon2::Argon2::default(),
            password.as_bytes(),
            &parsed,
        ).is_ok(),
        Err(_) => false,
    }
}

/// Hashes `password` with Argon2's default parameters and a fresh random salt
/// (`PasswordHasher::hash_password`), as a PHC string. The salt is random, so
/// only this is stated: a hash it returns verifies the same password.
#[verifier::external_body]
pub(crate) fn hash_password(password: &str) -> (r: Result<String, String>)
    ensures
        r matches Ok(h) ==> argon2_accepts(h@, password@),
{
    let salt = argon2::password_hash::SaltString::generate(&mut rand::thread_rng());
    argon2::PasswordHasher::hash_password(&argon2::Argon2::default(), password.as_bytes(), &salt)
        .map(|hash| hash.to_string())
        .map_err(|e| format!("argon2 hash failed: {e}"))
}

/// The HTML entity of a character that `htmlescape::encode_minimal` replaces,
/// if it is one of the five.
pub open spec fn minimal_entity(c: char) -> Option<Seq<char>> {
    if c == '"' {
        Some("&quot;"@)
    } else if c == '&' {
        Some("&amp;"@)
    } else if c == '\'' {
        Some("&#x27;"@)
    } else if c == '<' {
        Some("&lt;"@)
    } else if c == '>' {
        Some("&gt;"@)
    } else {
        None
    }
}

/// `s` with `"`, `&`, `'`, `<` and `>` replaced by their entities.
pub open spec fn html_minimal(s: Seq<char>) -> Seq<char>
    decreases s.len(),
{
    if s.len() == 0 {
        Seq::empty()
    } else {
        html_minimal(s.drop_last()) + match minimal_entity(s.last()) {
            Some(e) => e,
            None => seq![s.last()],
        }
    }
}

/// `htmlescape::encode_minimal`: entity-encodes the five characters `"`, `&`,
/// `'`, `<`, `>` and keeps every other character.
#[verifier::external_body]
pub(crate) fn encode_minimal(s: &str) -> (r: String)
    ensures
        r@ == html_minimal(s@),
{
    htmlescape::encode_minimal(s)
}

/// The text that `{:?}` writes for a string: the string in double quotes,
/// each character escaped as `char::escape_debug` escapes it.
pub uninterp spec fn debug_quoted_text(s: Seq<char>) -> Seq<char>;

/// `format!("{:?}", s)`: the `Debug` form of a string. Its escaping rules are
/// std's own and are not restated here; the result is named.
#[verifier::external_body]
pub(crate) fn debug_quoted(s: &str) -> (r: String)
    ensures
        r@ == debug_quoted_text(s@),
{
    format!("{:?}", s)
}

/// `base64::encode`: standard base64 with padding.
#[verifier::external_body]
pub(crate) fn base64_encode(data: &[u8]) -> (r: String)
    ensures
        r@ == base64_standard(data@),
{
    base64::encode(data)
}

/// What `base64::decode` (standard alphabet) makes of `text`: the bytes, or
/// `None` when the text is refused.
pub uninterp spec fn base64_decoded(text: Seq<char>) -> Option<Seq<u8>>;

/// `base64::decode`, its error dropped. Which texts it refuses is not
/// restated; of the text that `base64::encode` writes for some bytes it gives
/// those bytes back.
#[verifier::external_body]
pub(crate) fn base64_decode(text: &str) -> (r: Option<Vec<u8>>)
    ensures
        match r {
            Some(v) => base64_decoded(text@) == Some(v@),
            None => base64_decoded(text@) is None,
        },
        r is Some || !(exists|b: Seq<u8>| #[trigger] base64_standard(b) == text@),
        r matches Some(v) ==> ((exists|b: Seq<u8>| #[trigger] base64_standard(b) == text@)
            ==> base64_standard(v@) == text@),
{
    base64::decode(text).ok()
}

} // verus!
