//! The pastebin: addresses, listing summaries and how a paste is served.

use vstd::prelude::*;
use crate::authentication::{bearer_matches, bearer_token};
use crate::fields::{fields, join_fields, join_with, separator};
use crate::text::{byte_len, chars_of, concat3, owned, split_once, str_byte_len, str_eq, string_from_chars, sub_chars};
use crate::vault::api::without_trailing_slashes;

verus! {

/// A paste as listed on the admin page.
#[derive(Debug, Clone)]
pub struct PasteSummary {
    pub id: String,
    pub public_url: String,
    pub created_at: String,
    pub created_at_display: String,
    pub size_bytes: usize,
    pub line_count: usize,
    pub preview: String,
}

/// A paste as shown on its page.
#[derive(Debug, Clone)]
pub struct PasteDetail {
    pub id: String,
    pub public_url: String,
    pub raw_url: String,
    pub created_at: String,
    pub created_at_display: String,
    pub size_bytes: usize,
    pub line_count: usize,
    pub content: String,
}

/// The admin form that creates a paste.
#[derive(Debug, Clone)]
pub struct CreatePasteForm {
    pub content: String,
}

/// The query of a paste page (`?raw` asks for plain text).
#[derive(Debug, Clone, Default)]
pub struct PasteQuery {
    pub raw: Option<String>,
}

/// The public address of paste `id`.
pub fn public_url(base_url: &str, id: &str) -> (r: String)
    ensures
        r@ == without_trailing_slashes(base_url@) + "/p/"@ + id@,
{
    let base = crate::cli::config::normalize_base_url(base_url);
    concat3(base.as_str(), "/p/", id)
}

/// The number of lines `str::lines` yields: none for empty text, and one
/// more than the line breaks unless the text ends with one.
pub open spec fn lines_count(s: Seq<char>) -> nat {
    if s.len() == 0 {
        0
    } else {
        let breaks = s.filter(|c: char| c == '\n').len();
        if s.last() == '\n' {
            breaks
        } else {
            (breaks + 1) as nat
        }
    }
}

/// The number of lines shown for a paste: its lines, at least one.
pub fn line_count(content: &str) -> (r: usize)
    ensures
        r == if lines_count(content@) < 1 {
            1
        } else {
            lines_count(content@)
        },
{
    let v = chars_of(content);
    let mut breaks: usize = 0;
    let mut i: usize = 0;
    assert(content@.take(0) =~= Seq::<char>::empty());
    while i < v.len()
        invariant
            i <= v.len(),
            v@ == content@,
            breaks == content@.take(i as int).filter(|c: char| c == '\n').len(),
            breaks <= i,
            i > 0 && v@[i - 1] != '\n' ==> breaks < i,
        decreases v.len() - i,
    {
        proof {
            let t = content@.take(i + 1);
            assert(t.drop_last() =~= content@.take(i as int));
            assert(t.last() == v@[i as int]);
            reveal(Seq::filter);
        }
        if v[i] == '\n' {
            breaks = breaks + 1;
        }
        i = i + 1;
    }
    assert(content@.take(v.len() as int) =~= content@);
    let n = if v.len() == 0 {
        0
    } else if v[v.len() - 1] == '\n' {
        breaks
    } else {
        breaks + 1
    };
    if n < 1 {
        1
    } else {
        n
    }
}

/// The preview of a paste on the admin page: its words joined by single
/// spaces, cut after 120 characters (with `…`), or a note for a blank paste.
pub open spec fn preview_text(content: Seq<char>) -> Seq<char> {
    let words = join_with(fields(content, separator(true, ' ')), seq![' ']);
    if words.len() > 120 {
        words.take(120) + seq!['…']
    } else if words.len() == 0 {
        "(blank paste)"@
    } else {
        words
    }
}

/// The preview of a paste.
pub fn preview(content: &str) -> (r: String)
    ensures
        r@ == preview_text(content@),
{
    let v = chars_of(content);
    let words = join_fields(v.as_slice(), true, ' ', ' ');
    if words.len() > 120 {
        let mut head = sub_chars(words.as_slice(), 0, 120);
        head.push('…');
        assert(head@ =~= words@.take(120) + seq!['…']);
        string_from_chars(head.as_slice())
    } else if words.len() == 0 {
        owned("(blank paste)")
    } else {
        string_from_chars(words.as_slice())
    }
}

/// The part of a `User-Agent` before its first `/`.
pub open spec fn agent_product(ua: Seq<char>) -> Seq<char> {
    match split_once(ua, '/') {
        Some(p) => p.0,
        None => ua,
    }
}

/// `text` contains `part`.
pub open spec fn contains_part(text: Seq<char>, part: Seq<char>) -> bool {
    exists|i: int| 0 <= i && i + part.len() <= text.len() && #[trigger] text.subrange(i, i + part.len()) == part
}

/// A paste is served as plain text to command-line clients (no user agent,
/// or curl, Wget or HTTPie) and to clients that accept `text/plain`.
pub open spec fn plaintext_wanted(user_agent: Option<Seq<char>>, accept: Option<Seq<char>>) -> bool {
    let cli = match user_agent {
        None => true,
        Some(ua) => {
            let p = agent_product(ua);
            p == "curl"@ || p == "Wget"@ || p == "HTTPie"@
        },
    };
    cli || match accept {
        Some(a) => contains_part(a, "text/plain"@),
        None => false,
    }
}

/// Whether `text` contains `part`.
fn contains_text(text: &str, part: &str) -> (r: bool)
    ensures
        r == contains_part(text@, part@),
{
    let t = chars_of(text);
    let p = chars_of(part);
    if p.len() > t.len() {
        proof {
            if contains_part(text@, part@) {
                let k = choose|k: int| 0 <= k && k + part@.len() <= text@.len() && #[trigger] text@.subrange(k, k + part@.len()) == part@;
            }
        }
        return false;
    }
    let last = t.len() - p.len();
    let mut i: usize = 0;
    loop
        invariant
            p.len() <= t.len(),
            last == t.len() - p.len(),
            i <= last,
            t@ == text@,
            p@ == part@,
            forall|k: int| 0 <= k < i && k + p@.len() <= t@.len() ==> #[trigger] t@.subrange(k, k + p@.len()) != p@,
        decreases last - i,
    {
        let piece = sub_chars(t.as_slice(), i, i + p.len());
        if crate::text::chars_eq(piece.as_slice(), p.as_slice()) {
            return true;
        }
        if i == last {
            proof {
                if contains_part(text@, part@) {
                    let k = choose|k: int| 0 <= k && k + part@.len() <= text@.len() && #[trigger] text@.subrange(k, k + part@.len()) == part@;
                    assert(k <= i);
                }
            }
            return false;
        }
        i = i + 1;
    }
}

/// Whether a paste is served as plain text, from the `User-Agent` and
/// `Accept` header values (`None` when missing or not visible ASCII).
pub fn wants_plaintext(user_agent: Option<&str>, accept: Option<&str>) -> (r: bool)
    ensures
        r == plaintext_wanted(
            match user_agent {
                Some(u) => Some(u@),
                None => None,
            },
            match accept {
                Some(a) => Some(a@),
                None => None,
            },
        ),
{
    let cli = match user_agent {
        None => true,
        Some(ua) => {
            let v = chars_of(ua);
            let product = match crate::text::split_once_chars(v.as_slice(), '/') {
                Some((p, _)) => p,
                None => v,
            };
            let ps = string_from_chars(product.as_slice());
            str_eq(ps.as_str(), "curl") || str_eq(ps.as_str(), "Wget") || str_eq(ps.as_str(), "HTTPie")
        },
    };
    if cli {
        return true;
    }
    match accept {
        Some(a) => contains_text(a, "text/plain"),
        None => false,
    }
}

/// The paste id in a paste path: the part before the first `.`
/// (`/p/abc123de.txt` names `abc123de`).
pub fn paste_id_of_path(path: &str) -> (r: String)
    ensures
        r@ == match split_once(path@, '.') {
            Some(p) => p.0,
            None => path@,
        },
{
    let v = chars_of(path);
    match crate::text::split_once_chars(v.as_slice(), '.') {
        Some((id, _)) => string_from_chars(id.as_slice()),
        None => owned(path),
    }
}

/// Why an API request to create a paste is refused.
#[derive(Debug, Clone, Copy, PartialEq, Eq)]
pub enum PasteRejection {
    /// 401: the bearer token is wrong or missing.
    Unauthorized,
    /// 400: the body is empty.
    Empty,
    /// 413: the body is larger than 256 KiB.
    TooLarge,
}

/// Checks an API request to create a paste: the bearer token, then a
/// non-empty body of at most 256 KiB.
pub fn check_api_paste(authorization: Option<&str>, expected_token: &str, body_len: usize) -> (r:
    Result<(), PasteRejection>)
    ensures
        !bearer_matches(authorization, expected_token@) ==> r == Err::<(), PasteRejection>(
            PasteRejection::Unauthorized,
        ),
        bearer_matches(authorization, expected_token@) && body_len == 0 ==> r == Err::<
            (),
            PasteRejection,
        >(PasteRejection::Empty),
        bearer_matches(authorization, expected_token@) && body_len > 262_144 ==> r == Err::<
            (),
            PasteRejection,
        >(PasteRejection::TooLarge),
        bearer_matches(authorization, expected_token@) && 0 < body_len <= 262_144 ==> r is Ok,
{
    let authorized = match bearer_token(authorization) {
        None => false,
        Some(t) => str_eq(t.as_str(), expected_token),
    };
    if !authorized {
        return Err(PasteRejection::Unauthorized);
    }
    if body_len == 0 {
        return Err(PasteRejection::Empty);
    }
    if body_len > crate::domain::paste::MAX_PASTE_BYTES {
        return Err(PasteRejection::TooLarge);
    }
    Ok(())
}

impl PasteRejection {
    /// The HTTP status of the refusal.
    pub fn status(self) -> (r: u16)
        ensures
            r == match self {
                PasteRejection::Unauthorized => 401u16,
                PasteRejection::Empty => 400u16,
                PasteRejection::TooLarge => 413u16,
            },
    {
        match self {
            PasteRejection::Unauthorized => 401,
            PasteRejection::Empty => 400,
            PasteRejection::TooLarge => 413,
        }
    }

    /// The message sent with the refusal.
    pub fn message(self) -> (r: &'static str)
        ensures
            r@ == match self {
                PasteRejection::Unauthorized => "invalid or missing bearer token"@,
                PasteRejection::Empty => "paste content is required"@,
                PasteRejection::TooLarge => "paste must be at most 256 KiB"@,
            },
    {
        match self {
            PasteRejection::Unauthorized => "invalid or missing bearer token",
            PasteRejection::Empty => "paste content is required",
            PasteRejection::TooLarge => "paste must be at most 256 KiB",
        }
    }
}

/// Checks the content of a paste sent from the admin form: non-empty, at
/// most 256 KiB.
pub fn check_form_paste(form: &CreatePasteForm) -> (r: Result<(), PasteRejection>)
    ensures
        form.content@.len() == 0 ==> r == Err::<(), PasteRejection>(PasteRejection::Empty),
        form.content@.len() > 0 && byte_len(form.content@) > 262_144 ==> r == Err::<(), PasteRejection>(
            PasteRejection::TooLarge,
        ),
        form.content@.len() > 0 && byte_len(form.content@) <= 262_144 ==> r is Ok,
{
    if form.content.as_str().is_empty() {
        return Err(PasteRejection::Empty);
    }
    if str_byte_len(form.content.as_str()) > crate::domain::paste::MAX_PASTE_BYTES {
        return Err(PasteRejection::TooLarge);
    }
    Ok(())
}

/// The plain-text reply to a paste created through the API: its public
/// address and a line break.
pub fn paste_created_reply(base_url: &str, id: &str) -> (r: String)
    ensures
        r@ == without_trailing_slashes(base_url@) + "/p/"@ + id@ + "\n"@,
{
    let mut url = public_url(base_url, id);
    crate::text::append_str(&mut url, "\n");
    url
}

/// A paste is served as plain text when `?raw` is given or the client wants
/// plain text.
pub fn serves_plain_text(query: &PasteQuery, user_agent: Option<&str>, accept: Option<&str>) -> (r: bool)
    ensures
        r == (query.raw is Some || plaintext_wanted(
            match user_agent {
                Some(u) => Some(u@),
                None => None,
            },
            match accept {
                Some(a) => Some(a@),
                None => None,
            },
        )),
{
    query.raw.is_some() || wants_plaintext(user_agent, accept)
}

/// A paste as listed on the admin page: its address, size in bytes, line
/// count and preview, with the times given.
pub fn paste_summary(base_url: &str, id: String, content: &str, created_at: String, created_at_display: String) -> (r: PasteSummary)
    ensures
        r.id@ == id@,
        r.public_url@ == without_trailing_slashes(base_url@) + "/p/"@ + id@,
        r.created_at@ == created_at@,
        r.created_at_display@ == created_at_display@,
        r.size_bytes == byte_len(content@),
        r.line_count == if lines_count(content@) < 1 {
            1
        } else {
            lines_count(content@)
        },
        r.preview@ == preview_text(content@),
{
    PasteSummary {
        public_url: public_url(base_url, id.as_str()),
        id,
        created_at,
        created_at_display,
        size_bytes: str_byte_len(content),
        line_count: line_count(content),
        preview: preview(content),
    }
}

/// A paste as shown on its page: its address, its raw address, size, line
/// count and content, with the times given.
pub fn paste_detail(base_url: &str, id: String, content: String, created_at: String, created_at_display: String) -> (r: PasteDetail)
    ensures
        r.id@ == id@,
        r.public_url@ == without_trailing_slashes(base_url@) + "/p/"@ + id@,
        r.raw_url@ == "/p/"@ + id@ + "?raw=1"@,
        r.created_at@ == created_at@,
        r.created_at_display@ == created_at_display@,
        r.size_bytes == byte_len(content@),
        r.line_count == if lines_count(content@) < 1 {
            1
        } else {
            lines_count(content@)
        },
        r.content@ == content@,
{
    PasteDetail {
        public_url: public_url(base_url, id.as_str()),
        raw_url: concat3("/p/", id.as_str(), "?raw=1"),
        id,
        created_at,
        created_at_display,
        size_bytes: str_byte_len(content.as_str()),
        line_count: line_count(content.as_str()),
        content,
    }
}

/// The pastebin admin page: the listed pastes and the size limit in KiB.
#[derive(Debug, Clone)]
pub struct PastebinAdminTemplate {
    pub pastes: Vec<PasteSummary>,
    pub max_paste_kb: usize,
}

/// The page of one paste.
#[derive(Debug, Clone)]
pub struct PasteTemplate {
    pub paste: PasteDetail,
}

/// The pastebin admin page for the listed pastes.
pub fn pastebin_admin_page(pastes: Vec<PasteSummary>) -> (r: PastebinAdminTemplate)
    ensures
        r.pastes@ == pastes@,
        r.max_paste_kb == 256,
{
    PastebinAdminTemplate { pastes, max_paste_kb: crate::domain::paste::MAX_PASTE_BYTES / 1024 }
}

} // verus!
