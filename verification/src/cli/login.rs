//! Logging the client in through the browser: the login address and the
//! reading of the callback request.

use vstd::prelude::*;
use vstd::utf8::encode_utf8;
use crate::cli::config::{pairs_view, toml_get};
use crate::fields::{fields, separator};
use crate::text::{split_parts, chars_of, concat3, concat_str, owned, split_once, split_once_chars, string_from_chars, sub_chars};
use crate::vault::api::without_trailing_slashes;

verus! {

/// Bytes left as they are by URL encoding: ASCII letters and digits, `-`,
/// `.`, `_` and `~`.
pub open spec fn url_safe_byte(b: u8) -> bool {
    (0x30 <= b <= 0x39) || (0x41 <= b <= 0x5a) || (0x61 <= b <= 0x7a) || b == 0x2d || b == 0x2e
        || b == 0x5f || b == 0x7e
}

/// Uppercase hexadecimal digit of `n` (0..16).
pub open spec fn hex_upper(n: u8) -> char {
    if n < 10 {
        ((0x30 + n) as u8) as char
    } else {
        ((0x41 + n - 10) as u8) as char
    }
}

/// `urlencoding::encode` of UTF-8 bytes: safe bytes as they are, every other
/// byte as `%` and two uppercase hex digits.
pub open spec fn url_encoded_bytes(b: Seq<u8>) -> Seq<char>
    decreases b.len(),
{
    if b.len() == 0 {
        Seq::empty()
    } else {
        let x = b.last();
        url_encoded_bytes(b.drop_last()) + if url_safe_byte(x) {
            seq![x as char]
        } else {
            seq!['%', hex_upper(x / 16), hex_upper(x % 16)]
        }
    }
}

/// Percent-encodes `s` (`urlencoding::encode`).
#[verifier::external_body]
pub(crate) fn url_encode(s: &str) -> (r: String)
    ensures
        r@ == url_encoded_bytes(encode_utf8(s@)),
{
    urlencoding::encode(s).into_owned()
}

/// What `urlencoding::decode` gives for `s`: the text with `%xx` escapes
/// decoded, or `None` when the decoded bytes are not UTF-8.
pub uninterp spec fn url_decoded(s: Seq<char>) -> Option<Seq<char>>;

/// Decodes percent escapes (`urlencoding::decode`).
#[verifier::external_body]
pub(crate) fn url_decode(s: &str) -> (r: Option<String>)
    ensures
        crate::json::opt_seq(r) == url_decoded(s@),
{
    match urlencoding::decode(s) {
        Ok(c) => Some(c.into_owned()),
        Err(_) => None,
    }
}

/// The browser address that starts a login, returning to `callback`.
pub fn login_url(base_url: &str, callback: &str, client_name: &str) -> (r: String)
    ensures
        r@ == without_trailing_slashes(base_url@) + "/cli-login?callback="@ + url_encoded_bytes(
            encode_utf8(callback@),
        ) + "&client_name="@ + url_encoded_bytes(encode_utf8(client_name@)),
{
    let base = crate::cli::config::normalize_base_url(base_url);
    let a = concat3(base.as_str(), "/cli-login?callback=", url_encode(callback).as_str());
    concat3(a.as_str(), "&client_name=", url_encode(client_name).as_str())
}

/// The API path listing the memories of `user_id`.
pub fn memory_list_path(user_id: &str) -> (r: String)
    ensures
        r@ == "/api/memory/"@ + url_encoded_bytes(encode_utf8(user_id@)),
{
    concat_str("/api/memory/", url_encode(user_id).as_str())
}

/// The target of an HTTP request: the second whitespace-separated field of
/// its first line.
pub open spec fn request_target(request: Seq<char>) -> Option<Seq<char>> {
    if request.len() == 0 {
        None
    } else {
        let line = match split_once(request, '\n') {
            Some(p) => p.0,
            None => request,
        };
        let f = fields(line, separator(true, ' '));
        if f.len() >= 2 {
            Some(f[1])
        } else {
            None
        }
    }
}

/// The target of the login callback request.
pub fn callback_target(request: &str) -> (r: Result<String, String>)
    ensures
        match request_target(request@) {
            Some(t) => r matches Ok(v) && v@ == t,
            None => r matches Err(e) && e@ == "invalid login callback request"@,
        },
{
    let v = chars_of(request);
    if v.len() == 0 {
        return Err(owned("invalid login callback request"));
    }
    let line = match split_once_chars(v.as_slice(), '\n') {
        Some((first, _)) => first,
        None => v,
    };
    let f = field_list(line.as_slice());
    if f.len() >= 2 {
        Ok(string_from_chars(f[1].as_slice()))
    } else {
        Err(owned("invalid login callback request"))
    }
}

/// The whitespace-separated fields of `s`.
pub(crate) fn field_list(s: &[char]) -> (r: Vec<Vec<char>>)
    ensures
        r@.map_values(|f: Vec<char>| f@) == fields(s@, separator(true, ' ')),
{
    let ghost sep = separator(true, ' ');
    let mut out: Vec<Vec<char>> = Vec::new();
    let mut i: usize = 0;
    assert(s@.take(0) =~= Seq::<char>::empty());
    while i < s.len()
        invariant
            i <= s.len(),
            sep == separator(true, ' '),
            out@.map_values(|f: Vec<char>| f@) == fields(s@.take(i as int), sep),
        decreases s.len() - i,
    {
        let c = s[i];
        let ghost t = s@.take(i + 1);
        let ghost prev = fields(s@.take(i as int), sep);
        proof {
            assert(t.drop_last() =~= s@.take(i as int));
            assert(t.last() == c);
            if i > 0 {
                assert(t[t.len() - 2] == s@[i - 1]);
            }
        }
        if crate::text::is_whitespace(c) {
        } else if i == 0 || crate::text::is_whitespace(s[i - 1]) {
            let ghost before = out@;
            let mut nf: Vec<char> = Vec::new();
            nf.push(c);
            assert(nf@ =~= seq![c]);
            out.push(nf);
            assert(out@.map_values(|f: Vec<char>| f@) =~= before.map_values(|f: Vec<char>| f@).push(seq![c]));
        } else {
            proof {
                crate::fields::lemma_fields_nonempty(s@.take(i as int), sep);
                assert(s@.take(i as int).last() == s@[i - 1]);
            }
            let last = out.len() - 1;
            let mut w = out.remove(last);
            w.push(c);
            let ghost before = out@;
            out.push(w);
            assert(out@.map_values(|f: Vec<char>| f@) =~= prev.update(prev.len() - 1, prev.last().push(c)));
        }
        i = i + 1;
    }
    assert(s@.take(s.len() as int) =~= s@);
    out
}

/// A query component decoded, or kept as it is when it does not decode.
pub open spec fn decoded_or_raw(s: Seq<char>) -> Seq<char> {
    match url_decoded(s) {
        Some(d) => d,
        None => s,
    }
}

/// The key and value of one `key=value` query pair (a pair without `=` has
/// an empty value), decoded.
pub open spec fn query_pair(pair: Seq<char>) -> (Seq<char>, Seq<char>) {
    match split_once(pair, '=') {
        Some(p) => (decoded_or_raw(p.0), decoded_or_raw(p.1)),
        None => (decoded_or_raw(pair), decoded_or_raw(Seq::empty())),
    }
}

/// The decoded pairs of the non-empty `&`-separated parts, in order.
pub open spec fn query_pairs_of(parts: Seq<Seq<char>>) -> Seq<(Seq<char>, Seq<char>)>
    decreases parts.len(),
{
    if parts.len() == 0 {
        Seq::empty()
    } else {
        let prev = query_pairs_of(parts.drop_last());
        if parts.last().len() == 0 {
            prev
        } else {
            prev.push(query_pair(parts.last()))
        }
    }
}

/// The decoded pairs of a query string, in order (a later pair with the same
/// key wins on lookup).
pub open spec fn query_pairs(query: Seq<char>) -> Seq<(Seq<char>, Seq<char>)> {
    query_pairs_of(split_parts(query, '&'))
}

fn decode_or_keep(s: &str) -> (r: String)
    ensures
        r@ == decoded_or_raw(s@),
{
    match url_decode(s) {
        Some(d) => d,
        None => owned(s),
    }
}

/// The decoded pairs of a query string.
pub fn parse_query(query: &str) -> (r: Vec<(String, String)>)
    ensures
        pairs_view(r@) == query_pairs(query@),
{
    proof {
        reveal_strlit("");
        assert(""@ =~= Seq::<char>::empty());
    }
    let mut out: Vec<(String, String)> = Vec::new();
    let mut rest = chars_of(query);
    let ghost mut done: Seq<Seq<char>> = Seq::empty();
    loop
        invariant
            split_parts(query@, '&') == done + split_parts(rest@, '&'),
            query_pairs_of(done) == pairs_view(out@),
            ""@ == Seq::<char>::empty(),
        decreases rest@.len(),
    {
        let (part, next, last) = match split_once_chars(rest.as_slice(), '&') {
            Some((p, n)) => {
                proof {
                    crate::text::lemma_first_index(rest@, '&');
                    assert(split_parts(rest@, '&') == seq![p@] + split_parts(n@, '&'));
                }
                (p, n, false)
            },
            None => {
                proof {
                    assert(split_parts(rest@, '&') == seq![rest@]);
                }
                (sub_chars(rest.as_slice(), 0, rest.len()), Vec::new(), true)
            },
        };
        let ghost prev_out = pairs_view(out@);
        if part.len() > 0 {
            let text = string_from_chars(part.as_slice());
            let (k, v) = match split_once_chars(part.as_slice(), '=') {
                Some((k, v)) => (string_from_chars(k.as_slice()), string_from_chars(v.as_slice())),
                None => (string_from_chars(part.as_slice()), String::new()),
            };
            let key = decode_or_keep(k.as_str());
            let value = decode_or_keep(v.as_str());
            out.push((key, value));
            assert(pairs_view(out@) =~= prev_out.push((key@, value@)));
        }
        proof {
            assert(done.push(part@).drop_last() =~= done);
            assert(done.push(part@).last() == part@);
        }
        if last {
            proof {
                assert(rest@ =~= part@);
                assert(split_parts(query@, '&') =~= done.push(part@));
            }
            return out;
        }
        proof {
            assert(done + split_parts(rest@, '&') =~= done.push(part@) + split_parts(next@, '&'));
            done = done.push(part@);
        }
        rest = next;
    }
}

/// The token and server address that the login callback carries: its
/// `token` must be present and non-empty; `base_url` falls back to the
/// server the login started from.
pub open spec fn callback_credentials_spec(target: Seq<char>, default_base: Seq<char>) -> Result<
    (Seq<char>, Seq<char>),
    Seq<char>,
> {
    let query = match split_once(target, '?') {
        Some(p) => p.1,
        None => Seq::empty(),
    };
    let pairs = query_pairs(query);
    match toml_get(pairs, "token"@) {
        Some(t) if t.len() > 0 => Ok(
            (
                t,
                match toml_get(pairs, "base_url"@) {
                    Some(b) => b,
                    None => default_base,
                },
            ),
        ),
        _ => Err("login callback did not include a token"@),
    }
}

/// The token and server address of the login callback.
pub fn callback_credentials(target: &str, default_base: &str) -> (r: Result<(String, String), String>)
    ensures
        match r {
            Ok((t, b)) => callback_credentials_spec(target@, default_base@) == Ok::<_, Seq<char>>((t@, b@)),
            Err(e) => callback_credentials_spec(target@, default_base@) == Err::<(Seq<char>, Seq<char>), _>(e@),
        },
{
    proof {
        reveal_strlit("");
        assert(""@ =~= Seq::<char>::empty());
    }
    let v = chars_of(target);
    let query = match split_once_chars(v.as_slice(), '?') {
        Some((_, q)) => string_from_chars(q.as_slice()),
        None => String::new(),
    };
    let pairs = parse_query(query.as_str());
    let token = match crate::cli::config::toml_value(&pairs, "token") {
        Some(t) => if t.as_str().is_empty() {
            return Err(owned("login callback did not include a token"));
        } else {
            t
        },
        None => return Err(owned("login callback did not include a token")),
    };
    let base = match crate::cli::config::toml_value(&pairs, "base_url") {
        Some(b) => b,
        None => owned(default_base),
    };
    Ok((token, base))
}

} // verus!
