//! Sharing a thread: the signed cookie that remembers an unlocked
//! password-protected share, and what a share request asks for.

use vstd::prelude::*;
use crate::clock::unix_now;
use crate::primitives::{argon2_accepts, hash_password, hmac_sha256, lemma_hex_lower_shape, verify_password};
use vstd::utf8::encode_utf8;
use crate::text::{append_str, chars_of, concat3, owned, has_prefix, i64_text, i64_to_decimal, is_first, is_hex_byte, is_ws, lemma_first_index, lemma_i64_text_roundtrip, lemma_last_index_of_join, parse_i64, parsed_i64, split_parts, rsplit_once, rsplit_once_chars, split_once, split_once_chars, starts_with_chars, str_eq, string_from_chars, sub_chars, trim, trim_chars, trim_end, trim_start};
use crate::vault::auth::{sign, signature_accepted, signature_text, verify_signature};
use crate::vault::api::without_trailing_slashes;
use crate::cli::config::normalize_base_url;

verus! {

/// Seconds for which an unlocked share stays unlocked: thirty days.
pub const SHARE_COOKIE_MAX_AGE_SECS: i64 = 2_592_000;

/// The name of the cookie for share `share_id`, with its `=`.
pub open spec fn share_cookie_name(share_id: Seq<char>) -> Seq<char> {
    "ptv_share_"@ + share_id + "="@
}

/// The signed part of a share cookie: the share and its expiry time.
pub open spec fn share_cookie_payload(share_id: Seq<char>, expires_at: int) -> Seq<char> {
    share_id + ":"@ + i64_text(expires_at)
}

/// The value of a share cookie: `<share_id>:<expires_at>.<signature>`.
pub open spec fn share_cookie_text(share_id: Seq<char>, expires_at: int, secret: Seq<char>) -> Seq<
    char,
> {
    let p = share_cookie_payload(share_id, expires_at);
    p + "."@ + signature_text(p, secret)
}

/// The value of the first cookie among `parts` (each trimmed) that starts
/// with `name`.
pub open spec fn cookie_value_of(parts: Seq<Seq<char>>, name: Seq<char>) -> Option<Seq<char>>
    decreases parts.len(),
{
    if parts.len() == 0 {
        None
    } else if has_prefix(trim(parts[0]), name) {
        Some(trim(parts[0]).skip(name.len() as int))
    } else {
        cookie_value_of(parts.skip(1), name)
    }
}

/// The `Cookie` header holds, under the share's name, a cookie for this share
/// whose expiry is after `now` and whose signature is valid under `secret`.
pub open spec fn share_cookie_valid(
    header: Option<Seq<char>>,
    share_id: Seq<char>,
    secret: Seq<char>,
    now: int,
) -> bool {
    match header {
        None => false,
        Some(h) => match cookie_value_of(split_parts(h, ';'), share_cookie_name(share_id)) {
            None => false,
            Some(value) => match rsplit_once(value, '.') {
                None => false,
                Some((signed, signature)) => match split_once(signed, ':') {
                    None => false,
                    Some((cookie_share_id, expires_text)) => match parsed_i64(expires_text) {
                        None => false,
                        Some(expires_at) => cookie_share_id == share_id && expires_at > now
                            && signature_accepted(signed, signature, secret),
                    },
                },
            },
        },
    }
}

/// The optional text of an optional `&str`.
pub open spec fn opt_str(o: Option<&str>) -> Option<Seq<char>> {
    match o {
        Some(s) => Some(s@),
        None => None,
    }
}

/// The value of a share cookie for `share_id` that expires at `expires_at`.
pub fn share_cookie_value(share_id: &str, expires_at: i64, secret: &str) -> (r: String)
    ensures
        r@ == share_cookie_text(share_id@, expires_at as int, secret@),
{
    let expires = i64_to_decimal(expires_at);
    let payload = concat3(share_id, ":", expires.as_str());
    let signature = sign(payload.as_str(), secret);
    proof {
        reveal_strlit(":");
        reveal_strlit(".");
    }
    concat3(payload.as_str(), ".", signature.as_str())
}

/// A share cookie for `share_id` that expires thirty days from now.
pub fn signed_share_cookie(share_id: &str, secret: &str) -> (r: String)
    ensures
        exists|expires_at: int|
            -10_000_000_000_000 + 2_592_000 <= expires_at <= 10_000_000_000_000 + 2_592_000 && r@
                == #[trigger] share_cookie_text(share_id@, expires_at, secret@),
{
    let now = unix_now();
    let expires_at = now + SHARE_COOKIE_MAX_AGE_SECS;
    share_cookie_value(share_id, expires_at, secret)
}

/// The `Set-Cookie` header that stores `cookie_value` for share `share_id`.
pub fn share_cookie_header(share_id: &str, cookie_value: &str) -> (r: String)
    ensures
        r@ == share_cookie_name(share_id@) + cookie_value@
            + "; HttpOnly; SameSite=Lax; Path=/; Max-Age=2592000"@,
{
    let name = concat3("ptv_share_", share_id, "=");
    concat3(name.as_str(), cookie_value, "; HttpOnly; SameSite=Lax; Path=/; Max-Age=2592000")
}

/// The value of the first cookie of `header` that starts with `name`.
fn cookie_value(header: &[char], name: &[char]) -> (r: Option<Vec<char>>)
    ensures
        match r {
            Some(v) => cookie_value_of(split_parts(header@, ';'), name@) == Some(v@),
            None => cookie_value_of(split_parts(header@, ';'), name@) is None,
        },
{
    let mut rest: Vec<char> = sub_chars(header, 0, header.len());
    assert(rest@ =~= header@);
    loop
        invariant
            cookie_value_of(split_parts(header@, ';'), name@) == cookie_value_of(
                split_parts(rest@, ';'),
                name@,
            ),
        decreases rest.len(),
    {
        let ghost parts = split_parts(rest@, ';');
        let (piece, next) = match split_once_chars(rest.as_slice(), ';') {
            Some((a, b)) => (a, Some(b)),
            None => (rest.clone(), None),
        };
        proof {
            if rest@.contains(';') {
                lemma_first_index(rest@, ';');
                assert(parts[0] == piece@);
                assert(parts.skip(1) =~= split_parts(next->0@, ';'));
            } else {
                assert(parts =~= seq![rest@]);
                assert(piece@ == rest@);
            }
        }
        let t = trim_chars(piece.as_slice());
        if starts_with_chars(t.as_slice(), name) {
            let v = sub_chars(t.as_slice(), name.len(), t.len());
            assert(v@ =~= trim(piece@).skip(name@.len() as int));
            return Some(v);
        }
        match next {
            Some(b) => {
                rest = b;
            },
            None => {
                assert(parts.skip(1) =~= Seq::<Seq<char>>::empty());
                assert(cookie_value_of(Seq::<Seq<char>>::empty(), name@) is None);
                return None;
            },
        }
    }
}

/// Checks the share cookie of `cookie_header` for share `share_id` at time `now`.
pub fn share_cookie_accepted(
    cookie_header: Option<&str>,
    share_id: &str,
    secret: &str,
    now: i64,
) -> (r: bool)
    ensures
        r == share_cookie_valid(opt_str(cookie_header), share_id@, secret@, now as int),
{
    let header = match cookie_header {
        Some(h) => h,
        None => return false,
    };
    let name = concat3("ptv_share_", share_id, "=");
    let hv = chars_of(header);
    let nv = chars_of(name.as_str());
    let value = match cookie_value(hv.as_slice(), nv.as_slice()) {
        Some(v) => v,
        None => return false,
    };
    let (signed, signature) = match rsplit_once_chars(value.as_slice(), '.') {
        Some(p) => p,
        None => return false,
    };
    let (cookie_share_id, expires_text) = match split_once_chars(signed.as_slice(), ':') {
        Some(p) => p,
        None => return false,
    };
    let expires_at = match parse_i64(expires_text.as_slice()) {
        Some(e) => e,
        None => return false,
    };
    let sid = chars_of(share_id);
    let signed_text = string_from_chars(signed.as_slice());
    let signature_text_given = string_from_chars(signature.as_slice());
    crate::text::chars_eq(cookie_share_id.as_slice(), sid.as_slice()) && expires_at > now
        && verify_signature(signed_text.as_str(), signature_text_given.as_str(), secret)
}

/// Checks the share cookie of `cookie_header` for share `share_id` against the
/// current time.
pub fn has_share_cookie(cookie_header: Option<&str>, share_id: &str, secret: &str) -> (r: bool)
    ensures
        exists|now: int|
            -10_000_000_000_000 <= now <= 10_000_000_000_000 && r == #[trigger] share_cookie_valid(
                opt_str(cookie_header),
                share_id@,
                secret@,
                now,
            ),
{
    let now = unix_now();
    share_cookie_accepted(cookie_header, share_id, secret, now)
}

/// `a + b` lacks `c` when both parts do.
proof fn lemma_concat_lacks(a: Seq<char>, b: Seq<char>, c: char)
    requires
        !a.contains(c),
        !b.contains(c),
    ensures
        !(a + b).contains(c),
{
    if (a + b).contains(c) {
        let k = choose|k: int| 0 <= k < (a + b).len() && (a + b)[k] == c;
        if k < a.len() {
            assert(a[k] == c);
        } else {
            assert(b[k - a.len()] == c);
        }
    }
}

/// The signature text is hex digits: no `.`, `;` or whitespace, and not empty.
proof fn lemma_signature_chars(payload: Seq<char>, secret: Seq<char>)
    ensures
        !signature_text(payload, secret).contains('.'),
        !signature_text(payload, secret).contains(';'),
        signature_text(payload, secret).len() == 2 * hmac_sha256(encode_utf8(secret), encode_utf8(
            payload,
        )).len(),
        forall|i: int|
            0 <= i < signature_text(payload, secret).len() ==> !is_ws(
                #[trigger] signature_text(payload, secret)[i],
            ),
{
    let sig = signature_text(payload, secret);
    lemma_hex_lower_shape(hmac_sha256(encode_utf8(secret), encode_utf8(payload)));
    assert forall|i: int| 0 <= i < sig.len() implies !is_ws(#[trigger] sig[i]) && sig[i] != '.'
        && sig[i] != ';' by {
        assert(is_hex_byte(sig[i] as u8));
        assert(sig[i] <= '\u{7f}');
    }
}

/// A header that holds no `;` and starts and ends with non-whitespace is one
/// cookie; when it starts with `name`, its value is what follows.
proof fn lemma_single_cookie(name: Seq<char>, value: Seq<char>)
    requires
        !(name + value).contains(';'),
        (name + value).len() > 0,
        !is_ws((name + value)[0]),
        !is_ws((name + value).last()),
    ensures
        cookie_value_of(split_parts(name + value, ';'), name) == Some(value),
{
    let h = name + value;
    assert(split_parts(h, ';') =~= seq![h]);
    assert(trim_start(h) == h);
    assert(trim_end(h) == h);
    assert(h.take(name.len() as int) =~= name);
    assert(h.skip(name.len() as int) =~= value);
}

/// The cookie value splits back into the share id, the expiry text and the
/// signature.
proof fn lemma_cookie_text_parts(share_id: Seq<char>, expires_at: int, secret: Seq<char>)
    requires
        !share_id.contains(':'),
    ensures
        ({
            let payload = share_cookie_payload(share_id, expires_at);
            &&& rsplit_once(share_cookie_text(share_id, expires_at, secret), '.') == Some(
                (payload, signature_text(payload, secret)),
            )
            &&& split_once(payload, ':') == Some((share_id, i64_text(expires_at)))
        }),
{
    reveal_strlit(":");
    reveal_strlit(".");
    let exp = i64_text(expires_at);
    let payload = share_cookie_payload(share_id, expires_at);
    let sig = signature_text(payload, secret);
    let text = share_cookie_text(share_id, expires_at, secret);
    lemma_signature_chars(payload, secret);
    assert(text =~= payload + seq!['.'] + sig);
    lemma_last_index_of_join(payload, '.', sig);
    assert(text.take(payload.len() as int) =~= payload);
    assert(text.skip(payload.len() + 1int) =~= sig);
    assert(payload[share_id.len() as int] == ':');
    lemma_first_index(payload, ':');
    assert(is_first(payload, ':', share_id.len() as int)) by {
        assert forall|k: int| 0 <= k < share_id.len() implies payload[k] != ':' by {
            assert(payload[k] == share_id[k]);
        }
    }
    assert(payload.take(share_id.len() as int) =~= share_id);
    assert(payload.skip(share_id.len() + 1int) =~= exp);
}

/// The header made of a share cookie holds no `;` and has non-whitespace ends.
proof fn lemma_cookie_header_chars(share_id: Seq<char>, expires_at: int, secret: Seq<char>)
    requires
        i64::MIN <= expires_at <= i64::MAX,
        !share_id.contains(';'),
    ensures
        ({
            let h = share_cookie_name(share_id) + share_cookie_text(share_id, expires_at, secret);
            &&& !h.contains(';')
            &&& h.len() > 0
            &&& !is_ws(h[0])
            &&& !is_ws(h.last())
        }),
{
    reveal_strlit("ptv_share_");
    reveal_strlit("=");
    reveal_strlit(":");
    reveal_strlit(".");
    let name = share_cookie_name(share_id);
    let exp = i64_text(expires_at);
    let payload = share_cookie_payload(share_id, expires_at);
    let sig = signature_text(payload, secret);
    let text = share_cookie_text(share_id, expires_at, secret);
    let h = name + text;
    lemma_i64_text_roundtrip(expires_at);
    lemma_signature_chars(payload, secret);
    assert(!"ptv_share_"@.contains(';')) by {
        if "ptv_share_"@.contains(';') {
            let k = choose|k: int| 0 <= k < "ptv_share_"@.len() && "ptv_share_"@[k] == ';';
        }
    }
    assert(!exp.contains(';')) by {
        if exp.contains(';') {
            let k = choose|k: int| 0 <= k < exp.len() && exp[k] == ';';
        }
    }
    assert(!"="@.contains(';'));
    assert(!":"@.contains(';'));
    assert(!"."@.contains(';'));
    lemma_concat_lacks("ptv_share_"@, share_id, ';');
    lemma_concat_lacks("ptv_share_"@ + share_id, "="@, ';');
    lemma_concat_lacks(share_id, ":"@, ';');
    lemma_concat_lacks(share_id + ":"@, exp, ';');
    lemma_concat_lacks(payload, "."@, ';');
    lemma_concat_lacks(payload + "."@, sig, ';');
    lemma_concat_lacks(name, text, ';');
    assert(h[0] == 'p');
    if sig.len() > 0 {
        assert(h.last() == sig.last());
    } else {
        assert(h.last() == '.');
    }
}

/// A share cookie issued with expiry `expires_at` and sent back alone under
/// its name is accepted exactly while `now` is before the expiry, for share ids
/// that hold no `:` or `;`.
pub proof fn lemma_share_cookie_roundtrip(
    share_id: Seq<char>,
    secret: Seq<char>,
    expires_at: int,
    now: int,
)
    requires
        i64::MIN <= expires_at <= i64::MAX,
        !share_id.contains(':'),
        !share_id.contains(';'),
    ensures
        share_cookie_valid(
            Some(share_cookie_name(share_id) + share_cookie_text(share_id, expires_at, secret)),
            share_id,
            secret,
            now,
        ) == (expires_at > now),
{
    lemma_cookie_header_chars(share_id, expires_at, secret);
    lemma_single_cookie(
        share_cookie_name(share_id),
        share_cookie_text(share_id, expires_at, secret),
    );
    lemma_cookie_text_parts(share_id, expires_at, secret);
    lemma_i64_text_roundtrip(expires_at);
}

/// The form that asks to share a thread.
#[derive(Debug, Clone)]
pub struct ShareForm {
    pub share_kind: String,
    pub password: Option<String>,
}

/// What an accepted share form asks for.
#[derive(Debug, Clone, PartialEq, Eq)]
pub enum ShareRequest {
    /// Make the thread private again.
    Private,
    /// Publish the thread.
    Public,
    /// Share the thread through a secret link.
    SecretLink,
    /// Share the thread through a link that asks for this password.
    PasswordProtected(String),
}

/// Why a share form is refused.
#[derive(Debug, Clone, Copy, PartialEq, Eq)]
pub enum ShareRefusal {
    /// Public sharing is switched off and the form asks for more than `private`.
    SharingDisabled,
    /// A password-protected share without a password.
    PasswordRequired,
    /// A share kind that is not one of the four.
    UnknownKind,
    /// The password could not be hashed.
    HashFailed,
}

/// The outcome of a share form, as values.
pub open spec fn share_request_outcome(
    public_sharing: bool,
    kind: Seq<char>,
    password: Option<Seq<char>>,
) -> Result<(int, Seq<char>), ShareRefusal> {
    if !public_sharing && kind != "private"@ {
        Err(ShareRefusal::SharingDisabled)
    } else if kind == "private"@ {
        Ok((0, Seq::empty()))
    } else if kind == "public"@ {
        Ok((1, Seq::empty()))
    } else if kind == "secret-link"@ {
        Ok((2, Seq::empty()))
    } else if kind == "password-protected"@ {
        match password {
            Some(p) => if p.len() > 0 {
                Ok((3, p))
            } else {
                Err(ShareRefusal::PasswordRequired)
            },
            None => Err(ShareRefusal::PasswordRequired),
        }
    } else {
        Err(ShareRefusal::UnknownKind)
    }
}

/// With public sharing switched off, every share kind but `private` is
/// refused as `SharingDisabled`; `private` is always accepted; and with
/// public sharing on no form is refused as `SharingDisabled`.
pub proof fn lemma_disabled_sharing_allows_only_private(
    public_sharing: bool,
    kind: Seq<char>,
    password: Option<Seq<char>>,
)
    ensures
        !public_sharing && kind != "private"@ ==> share_request_outcome(public_sharing, kind, password)
            == Err::<(int, Seq<char>), ShareRefusal>(ShareRefusal::SharingDisabled),
        kind == "private"@ ==> share_request_outcome(public_sharing, kind, password) == Ok::<
            (int, Seq<char>),
            ShareRefusal,
        >((0, Seq::empty())),
        public_sharing ==> share_request_outcome(public_sharing, kind, password) != Err::<
            (int, Seq<char>),
            ShareRefusal,
        >(ShareRefusal::SharingDisabled),
{
}

/// A share request as values: its kind's number and its password.
pub open spec fn share_request_view(r: ShareRequest) -> (int, Seq<char>) {
    match r {
        ShareRequest::Private => (0, Seq::empty()),
        ShareRequest::Public => (1, Seq::empty()),
        ShareRequest::SecretLink => (2, Seq::empty()),
        ShareRequest::PasswordProtected(p) => (3, p@),
    }
}

/// Reads a share form: with public sharing switched off only `private` is
/// accepted; a password-protected share needs a non-empty password.
pub fn share_request(public_sharing: bool, form: ShareForm) -> (r: Result<ShareRequest, ShareRefusal>)
    ensures
        match r {
            Ok(q) => share_request_outcome(public_sharing, form.share_kind@, opt_string(form.password))
                == Ok::<(int, Seq<char>), ShareRefusal>(share_request_view(q)),
            Err(e) => share_request_outcome(public_sharing, form.share_kind@, opt_string(form.password))
                == Err::<(int, Seq<char>), ShareRefusal>(e),
        },
        !public_sharing && form.share_kind@ != "private"@ ==> r == Err::<ShareRequest, ShareRefusal>(
            ShareRefusal::SharingDisabled,
        ),
        form.share_kind@ == "private"@ ==> r == Ok::<ShareRequest, ShareRefusal>(ShareRequest::Private),
        public_sharing ==> r != Err::<ShareRequest, ShareRefusal>(ShareRefusal::SharingDisabled),
        r matches Ok(q) && q != ShareRequest::Private ==> public_sharing,
{
    let kind = form.share_kind.as_str();
    if !public_sharing && !str_eq(kind, "private") {
        return Err(ShareRefusal::SharingDisabled);
    }
    if str_eq(kind, "private") {
        Ok(ShareRequest::Private)
    } else if str_eq(kind, "public") {
        Ok(ShareRequest::Public)
    } else if str_eq(kind, "secret-link") {
        Ok(ShareRequest::SecretLink)
    } else if str_eq(kind, "password-protected") {
        match form.password {
            Some(p) => if p.as_str().is_empty() {
                Err(ShareRefusal::PasswordRequired)
            } else {
                Ok(ShareRequest::PasswordProtected(p))
            },
            None => Err(ShareRefusal::PasswordRequired),
        }
    } else {
        Err(ShareRefusal::UnknownKind)
    }
}

/// The optional text of an optional `String`.
pub open spec fn opt_string(o: Option<String>) -> Option<Seq<char>> {
    match o {
        Some(s) => Some(s@),
        None => None,
    }
}

impl ShareRefusal {
    /// The HTTP status of the refusal: 403 when sharing is disabled, 500 when
    /// hashing failed, else 400.
    pub fn status(self) -> (r: u16)
        ensures
            r == match self {
                ShareRefusal::SharingDisabled => 403u16,
                ShareRefusal::HashFailed => 500u16,
                _ => 400u16,
            },
    {
        match self {
            ShareRefusal::SharingDisabled => 403,
            ShareRefusal::HashFailed => 500,
            _ => 400,
        }
    }

    /// The message sent with the refusal.
    pub fn message(self) -> (r: &'static str)
        ensures
            r@ == match self {
                ShareRefusal::SharingDisabled => "public sharing is disabled"@,
                ShareRefusal::PasswordRequired => "password is required"@,
                ShareRefusal::UnknownKind => "unknown share kind"@,
                ShareRefusal::HashFailed => ""@,
            },
    {
        match self {
            ShareRefusal::SharingDisabled => "public sharing is disabled",
            ShareRefusal::PasswordRequired => "password is required",
            ShareRefusal::UnknownKind => "unknown share kind",
            ShareRefusal::HashFailed => "",
        }
    }
}

/// Replaces the password of a password-protected request by its Argon2 hash,
/// which is what is stored; other requests are returned as they are.
pub fn seal_share_request(request: ShareRequest) -> (r: Result<ShareRequest, ShareRefusal>)
    ensures
        match request {
            ShareRequest::PasswordProtected(p) => match r {
                Ok(ShareRequest::PasswordProtected(h)) => argon2_accepts(h@, p@),
                Ok(_) => false,
                Err(e) => e == ShareRefusal::HashFailed,
            },
            _ => r == Ok::<ShareRequest, ShareRefusal>(request),
        },
{
    match request {
        ShareRequest::PasswordProtected(p) => match hash_password(p.as_str()) {
            Ok(h) => Ok(ShareRequest::PasswordProtected(h)),
            Err(_) => Err(ShareRefusal::HashFailed),
        },
        other => Ok(other),
    }
}

/// Revoking a public share also makes its thread private again.
pub fn revocation_makes_private(share_kind: &str) -> (r: bool)
    ensures
        r == (share_kind@ == "public"@),
{
    str_eq(share_kind, "public")
}

/// The password form of a protected share.
#[derive(Debug, Clone)]
pub struct PasswordForm {
    pub password: String,
}

/// What answers a password sent for a share.
#[derive(Debug, Clone, PartialEq, Eq)]
pub enum UnlockOutcome {
    /// The share has no password: a bad request.
    NotProtected,
    /// The password matches: set this `Set-Cookie` header and go to the share.
    Unlocked(String),
    /// The password does not match: show the form again with an error.
    WrongPassword,
}

/// Checks the password sent for a share that was found, given its stored
/// password hash, if any. A matching password yields the cookie header that
/// unlocks the share for thirty days.
pub fn unlock_share(
    password_hash: Option<&str>,
    form: &PasswordForm,
    share_id: &str,
    secret: &str,
) -> (r: UnlockOutcome)
    ensures
        match password_hash {
            None => r == UnlockOutcome::NotProtected,
            Some(h) => if argon2_accepts(h@, form.password@) {
                r matches UnlockOutcome::Unlocked(header) && exists|expires_at: int|
                    -10_000_000_000_000 + 2_592_000 <= expires_at <= 10_000_000_000_000 + 2_592_000
                        && header@ == share_cookie_name(share_id@) + #[trigger] share_cookie_text(
                        share_id@,
                        expires_at,
                        secret@,
                    ) + "; HttpOnly; SameSite=Lax; Path=/; Max-Age=2592000"@
            } else {
                r == UnlockOutcome::WrongPassword
            },
        },
{
    let hash = match password_hash {
        Some(h) => h,
        None => return UnlockOutcome::NotProtected,
    };
    if verify_password(hash, form.password.as_str()) {
        let value = signed_share_cookie(share_id, secret);
        UnlockOutcome::Unlocked(share_cookie_header(share_id, value.as_str()))
    } else {
        UnlockOutcome::WrongPassword
    }
}

/// What a visitor of a share sees.
#[derive(Debug, Clone, Copy, PartialEq, Eq)]
pub enum ShareAccess {
    /// The share was revoked.
    Gone,
    /// A password-protected share without a valid unlock cookie.
    AskPassword,
    /// The shared thread.
    Show,
}

/// Decides what a visitor of a found share sees at time `now`.
pub fn share_access_at(
    revoked: bool,
    share_kind: &str,
    cookie_header: Option<&str>,
    share_id: &str,
    secret: &str,
    now: i64,
) -> (r: ShareAccess)
    ensures
        r == (if revoked {
            ShareAccess::Gone
        } else if share_kind@ == "password-protected"@ && !share_cookie_valid(
            opt_str(cookie_header),
            share_id@,
            secret@,
            now as int,
        ) {
            ShareAccess::AskPassword
        } else {
            ShareAccess::Show
        }),
{
    if revoked {
        ShareAccess::Gone
    } else if str_eq(share_kind, "password-protected") && !share_cookie_accepted(
        cookie_header,
        share_id,
        secret,
        now,
    ) {
        ShareAccess::AskPassword
    } else {
        ShareAccess::Show
    }
}

/// Decides what a visitor of a found share sees now.
pub fn share_access(
    revoked: bool,
    share_kind: &str,
    cookie_header: Option<&str>,
    share_id: &str,
    secret: &str,
) -> (r: ShareAccess)
    ensures
        exists|now: int|
            -10_000_000_000_000 <= now <= 10_000_000_000_000 && r == (if revoked {
                ShareAccess::Gone
            } else if share_kind@ == "password-protected"@ && !#[trigger] share_cookie_valid(
                opt_str(cookie_header),
                share_id@,
                secret@,
                now,
            ) {
                ShareAccess::AskPassword
            } else {
                ShareAccess::Show
            }),
{
    let now = unix_now();
    share_access_at(revoked, share_kind, cookie_header, share_id, secret, now)
}

/// The address of a secret-link or password-protected share: the base URL
/// without trailing slashes, `/s/` and the share's token.
pub open spec fn token_share_url(base_url: Seq<char>, token: Seq<char>) -> Seq<char> {
    without_trailing_slashes(base_url) + "/s/"@ + token
}

/// The page shown once after a token share is created, with its address
/// `url` and a link back to thread `thread_id`.
pub open spec fn share_created_html(url: Seq<char>, thread_id: Seq<char>) -> Seq<char> {
    "<!doctype html><html lang=\"en\"><head><meta charset=\"utf-8\"><title>Share created</title></head><body><h1>Share created</h1><p>This secret URL is only shown once because only its hash is stored.</p><p><a href=\""@
        + url + "\">"@ + url + "</a></p><p><a href=\"/admin/threads/"@ + thread_id
        + "\">Back to thread</a></p></body></html>"@
}

/// The page that shows a newly created token share's address, the only time
/// it is shown.
pub fn share_created_page(base_url: &str, thread_id: &str, token: &str) -> (r: String)
    ensures
        r@ == share_created_html(token_share_url(base_url@, token@), thread_id@),
{
    let url = concat3(normalize_base_url(base_url).as_str(), "/s/", token);
    let mut page = owned(
        "<!doctype html><html lang=\"en\"><head><meta charset=\"utf-8\"><title>Share created</title></head><body><h1>Share created</h1><p>This secret URL is only shown once because only its hash is stored.</p><p><a href=\"",
    );
    append_str(&mut page, url.as_str());
    append_str(&mut page, "\">");
    append_str(&mut page, url.as_str());
    append_str(&mut page, "</a></p><p><a href=\"/admin/threads/");
    append_str(&mut page, thread_id);
    append_str(&mut page, "\">Back to thread</a></p></body></html>");
    page
}

} // verus!
