//! The vault's ingest API: payloads, their cleaning before storage, the
//! thread title and the reply.

use vstd::prelude::*;
use crate::json::{compact, object4, strip_nuls_json, without_nul_strings, Json, JsonV};
use crate::primitives::{hex_encode, hex_lower, sha256, sha256_digest};
use crate::text::{
    append_str, chars_of, concat3, contains_char, lemma_without_nul_noop, owned, remove_char, str_eq,
    string_from_chars, strip_nul_chars, sub_chars, without_char, without_nul,
};
use crate::cli::config::normalize_base_url;
use crate::vault::session_import::opt_text;
use crate::vault::titles::{compact_title, compact_title_text, has_words, has_words_spec};

verus! {

/// Session fields of an ingest batch.
#[derive(Debug)]
pub struct SessionPayload {
    pub external_session_id: String,
    pub title: Option<String>,
    pub cwd: Option<String>,
    pub repo_remote: Option<String>,
    pub repo_branch: Option<String>,
    pub repo_head: Option<String>,
}

/// One event of an ingest batch.
#[derive(Debug)]
pub struct EventPayload {
    pub external_event_id: Option<String>,
    pub parent_external_event_id: Option<String>,
    pub event_hash: String,
    pub role: String,
    pub kind: String,
    pub content: Option<String>,
    pub metadata: Json,
    pub created_at: Option<String>,
}

/// An ingest batch: the session and its new events.
#[derive(Debug)]
pub struct BatchPayload {
    pub client_id: String,
    pub session: SessionPayload,
    pub events: Vec<EventPayload>,
}

/// The reply to an ingest batch.
#[derive(Debug)]
pub struct BatchResponse {
    pub thread_id: String,
    pub thread_url: String,
    pub accepted: u64,
    pub duplicates: u64,
}

/// A handoff recorded between two sessions.
#[derive(Debug)]
pub struct HandoffPayload {
    pub source_thread_id: String,
    pub target_external_session_id: Option<String>,
    pub goal: String,
    pub generated_prompt: String,
    pub source_event_ids: Vec<String>,
}

/// The reply to a recorded handoff.
#[derive(Debug)]
pub struct HandoffResponse {
    pub handoff_id: String,
}

/// An optional text without NUL characters.
pub open spec fn opt_without_nul(o: Option<String>) -> Option<Seq<char>> {
    match o {
        Some(s) => Some(without_nul(s@)),
        None => None,
    }
}

/// Removes NUL characters from `value` when it holds any.
pub fn sanitize_in_place(value: &mut String)
    ensures
        final(value)@ == without_nul(old(value)@),
{
    let v = chars_of(value.as_str());
    if contains_char(v.as_slice(), '\0') {
        let cleaned = strip_nul_chars(value.as_str());
        *value = cleaned;
    } else {
        proof {
            lemma_without_nul_noop(value@);
        }
    }
}

/// `sanitize_in_place` inside an option.
pub fn sanitize_opt(value: &mut Option<String>)
    ensures
        opt_text(*final(value)) == opt_without_nul(*old(value)),
{
    match value {
        Some(inner) => sanitize_in_place(inner),
        None => {},
    }
}

/// `after` is `before` with NUL characters removed from every text.
pub open spec fn event_sanitized(before: EventPayload, after: EventPayload) -> bool {
    &&& opt_text(after.external_event_id) == opt_without_nul(before.external_event_id)
    &&& opt_text(after.parent_external_event_id) == opt_without_nul(
        before.parent_external_event_id,
    )
    &&& after.event_hash@ == without_nul(before.event_hash@)
    &&& after.role@ == without_nul(before.role@)
    &&& after.kind@ == without_nul(before.kind@)
    &&& opt_text(after.content) == opt_without_nul(before.content)
    &&& after.metadata.deep() == without_nul_strings(before.metadata.deep())
    &&& opt_text(after.created_at) == opt_without_nul(before.created_at)
}

/// Removes NUL characters from every text of a batch before it is stored.
pub fn sanitize_batch(payload: &mut BatchPayload)
    ensures
        final(payload).client_id@ == old(payload).client_id@,
        final(payload).session.external_session_id@ == without_nul(
            old(payload).session.external_session_id@,
        ),
        opt_text(final(payload).session.title) == opt_without_nul(old(payload).session.title),
        opt_text(final(payload).session.cwd) == opt_without_nul(old(payload).session.cwd),
        opt_text(final(payload).session.repo_remote) == opt_without_nul(
            old(payload).session.repo_remote,
        ),
        opt_text(final(payload).session.repo_branch) == opt_without_nul(
            old(payload).session.repo_branch,
        ),
        opt_text(final(payload).session.repo_head) == opt_without_nul(
            old(payload).session.repo_head,
        ),
        final(payload).events@.len() == old(payload).events@.len(),
        forall|i: int|
            0 <= i < old(payload).events@.len() ==> event_sanitized(
                old(payload).events@[i],
                #[trigger] final(payload).events@[i],
            ),
{
    sanitize_in_place(&mut payload.session.external_session_id);
    sanitize_opt(&mut payload.session.title);
    sanitize_opt(&mut payload.session.cwd);
    sanitize_opt(&mut payload.session.repo_remote);
    sanitize_opt(&mut payload.session.repo_branch);
    sanitize_opt(&mut payload.session.repo_head);
    let mut events: Vec<EventPayload> = Vec::new();
    std::mem::swap(&mut events, &mut payload.events);
    let ghost originals = events@;
    let mut cleaned: Vec<EventPayload> = Vec::new();
    while events.len() > 0
        invariant
            cleaned@.len() + events@.len() == originals.len(),
            events@ =~= originals.subrange(cleaned@.len() as int, originals.len() as int),
            forall|i: int|
                0 <= i < cleaned@.len() ==> event_sanitized(
                    originals[i],
                    #[trigger] cleaned@[i],
                ),
        decreases events@.len(),
    {
        let mut e = events.remove(0);
        sanitize_opt(&mut e.external_event_id);
        sanitize_opt(&mut e.parent_external_event_id);
        sanitize_in_place(&mut e.event_hash);
        sanitize_in_place(&mut e.role);
        sanitize_in_place(&mut e.kind);
        sanitize_opt(&mut e.content);
        sanitize_opt(&mut e.created_at);
        strip_nuls_json(&mut e.metadata);
        cleaned.push(e);
    }
    payload.events = cleaned;
}

/// Removes NUL characters from every text of a handoff.
pub fn sanitize_handoff(payload: &mut HandoffPayload)
    ensures
        final(payload).source_thread_id@ == without_nul(old(payload).source_thread_id@),
        opt_text(final(payload).target_external_session_id) == opt_without_nul(
            old(payload).target_external_session_id,
        ),
        final(payload).goal@ == without_nul(old(payload).goal@),
        final(payload).generated_prompt@ == without_nul(old(payload).generated_prompt@),
        final(payload).source_event_ids@.len() == old(payload).source_event_ids@.len(),
        forall|i: int|
            0 <= i < old(payload).source_event_ids@.len() ==> (#[trigger] final(payload).source_event_ids@[i])@
                == without_nul(old(payload).source_event_ids@[i]@),
{
    sanitize_in_place(&mut payload.source_thread_id);
    sanitize_opt(&mut payload.target_external_session_id);
    sanitize_in_place(&mut payload.goal);
    sanitize_in_place(&mut payload.generated_prompt);
    let mut ids: Vec<String> = Vec::new();
    std::mem::swap(&mut ids, &mut payload.source_event_ids);
    let ghost originals = ids@;
    let mut cleaned: Vec<String> = Vec::new();
    while ids.len() > 0
        invariant
            cleaned@.len() + ids@.len() == originals.len(),
            ids@ =~= originals.subrange(cleaned@.len() as int, originals.len() as int),
            forall|i: int|
                0 <= i < cleaned@.len() ==> (#[trigger] cleaned@[i])@ == without_nul(
                    originals[i]@,
                ),
        decreases ids@.len(),
    {
        let mut id = ids.remove(0);
        sanitize_in_place(&mut id);
        cleaned.push(id);
    }
    payload.source_event_ids = cleaned;
}

/// The content of the first event (a user event, when `user_only`) whose
/// content has words.
pub open spec fn first_worded_content(events: Seq<EventPayload>, user_only: bool) -> Option<
    Seq<char>,
>
    decreases events.len(),
{
    if events.len() == 0 {
        None
    } else {
        let e = events[0];
        if (!user_only || e.role@ == "user"@) && (e.content matches Some(c) && has_words_spec(c@)) {
            opt_text(e.content)
        } else {
            first_worded_content(events.skip(1), user_only)
        }
    }
}

/// The title of a thread whose batch carries no title: made from the first
/// user message with words, or else the first event with words.
pub open spec fn thread_title_of(events: Seq<EventPayload>) -> Option<Seq<char>> {
    match first_worded_content(events, true) {
        Some(c) => Some(compact_title_text(c)),
        None => match first_worded_content(events, false) {
            Some(c) => Some(compact_title_text(c)),
            None => None,
        },
    }
}

/// The content of the first worded event.
fn find_worded_content(events: &[EventPayload], user_only: bool) -> (r: Option<&str>)
    ensures
        match r {
            Some(c) => first_worded_content(events@, user_only) == Some(c@),
            None => first_worded_content(events@, user_only) is None,
        },
{
    let mut i: usize = 0;
    assert(events@.skip(0) =~= events@);
    while i < events.len()
        invariant
            i <= events.len(),
            first_worded_content(events@, user_only) == first_worded_content(
                events@.skip(i as int),
                user_only,
            ),
        decreases events.len() - i,
    {
        let e = &events[i];
        assert(events@.skip(i as int)[0] == events@[i as int]);
        if !user_only || str_eq(e.role.as_str(), "user") {
            match &e.content {
                Some(c) => {
                    if has_words(c.as_str()) {
                        return Some(c.as_str());
                    }
                },
                None => {},
            }
        }
        assert(events@.skip(i as int).skip(1) =~= events@.skip(i + 1));
        i = i + 1;
    }
    None
}

/// The title derived from a batch's events.
pub fn derive_thread_title(events: &[EventPayload]) -> (r: Option<String>)
    ensures
        opt_text(r) == thread_title_of(events@),
{
    match find_worded_content(events, true) {
        Some(c) => Some(compact_title(c)),
        None => match find_worded_content(events, false) {
            Some(c) => Some(compact_title(c)),
            None => None,
        },
    }
}

/// The title stored for an ingested thread: the batch's own title, or the
/// derived one.
pub fn ingest_title(session_title: &Option<String>, events: &[EventPayload]) -> (r: Option<String>)
    ensures
        opt_text(r) == match session_title {
            Some(t) => Some(t@),
            None => thread_title_of(events@),
        },
{
    match session_title {
        Some(t) => Some(t.clone()),
        None => derive_thread_title(events),
    }
}

/// `s` without trailing `/` characters.
pub open spec fn without_trailing_slashes(s: Seq<char>) -> Seq<char>
    decreases s.len(),
{
    if s.len() > 0 && s.last() == '/' {
        without_trailing_slashes(s.drop_last())
    } else {
        s
    }
}

/// The admin page of a thread under the vault's base URL.
pub fn thread_url(base_url: &str, thread_id: &str) -> (r: String)
    ensures
        r@ == without_trailing_slashes(base_url@) + "/admin/threads/"@ + thread_id@,
{
    let base = normalize_base_url(base_url);
    concat3(base.as_str(), "/admin/threads/", thread_id)
}

/// Counts one insert of the batch: no affected row means a duplicate.
pub fn tally_insert(accepted: u64, duplicates: u64, rows_affected: u64) -> (r: (u64, u64))
    requires
        accepted < u64::MAX,
        duplicates < u64::MAX,
    ensures
        rows_affected == 0 ==> r == (accepted, (duplicates + 1) as u64),
        rows_affected != 0 ==> r == ((accepted + 1) as u64, duplicates),
{
    if rows_affected == 0 {
        (accepted, duplicates + 1)
    } else {
        (accepted + 1, duplicates)
    }
}

/// The accepted and duplicate counts of a batch whose inserts affected
/// `rows_affected` rows each, counted one insert at a time by `tally_insert`.
pub open spec fn batch_counts(rows_affected: Seq<u64>) -> (int, int)
    decreases rows_affected.len(),
{
    if rows_affected.len() == 0 {
        (0, 0)
    } else {
        let (a, d) = batch_counts(rows_affected.drop_last());
        if rows_affected.last() == 0 {
            (a, d + 1)
        } else {
            (a + 1, d)
        }
    }
}

/// Every event of a batch is counted once: as accepted or as a duplicate.
pub proof fn lemma_batch_counts_cover_events(rows_affected: Seq<u64>)
    ensures
        batch_counts(rows_affected).0 + batch_counts(rows_affected).1 == rows_affected.len(),
        batch_counts(rows_affected).0 >= 0,
        batch_counts(rows_affected).1 >= 0,
    decreases rows_affected.len(),
{
    if rows_affected.len() > 0 {
        lemma_batch_counts_cover_events(rows_affected.drop_last());
    }
}

/// The first twelve hex digits of the SHA-256 of `bytes`, naming a stored blob.
pub fn short_hash(bytes: &[u8]) -> (r: String)
    ensures
        r@ == hex_lower(sha256(bytes@)).take(12),
{
    let digest = sha256_digest(bytes);
    let hex = hex_encode(digest.as_slice());
    proof {
        crate::primitives::lemma_hex_lower_shape(digest@);
    }
    let v = chars_of(hex.as_str());
    let head = sub_chars(v.as_slice(), 0, 12);
    assert(head@ =~= hex@.take(12));
    string_from_chars(head.as_slice())
}

/// The stored list of a handoff's source events: a compact JSON array of
/// strings.
pub fn source_event_ids_json(ids: &Vec<String>) -> (r: String)
    ensures
        r@ == compact(JsonV::Array(ids@.map_values(|s: String| JsonV::Str(s@)))),
{
    let mut items: Vec<Json> = Vec::new();
    let mut i: usize = 0;
    while i < ids.len()
        invariant
            i <= ids.len(),
            items@.len() == i,
            forall|k: int| 0 <= k < i ==> (#[trigger] items@[k]).deep() == JsonV::Str(ids@[k]@),
        decreases ids.len() - i,
    {
        items.push(Json::Str(ids[i].clone()));
        i = i + 1;
    }
    let arr = Json::Array(items);
    assert(arr.deep() == JsonV::Array(ids@.map_values(|s: String| JsonV::Str(s@)))) by {
        if let JsonV::Array(a) = arr.deep() {
            assert(a =~= ids@.map_values(|s: String| JsonV::Str(s@)));
        }
    }
    arr.to_compact()
}

/// The file name under which an ingested batch is kept: the ingest time
/// without its colons, a hyphen, the batch's short hash and `.json`.
pub fn batch_blob_name(now: &str, hash: &str) -> (r: String)
    ensures
        r@ == without_char(now@, ':') + "-"@ + hash@ + ".json"@,
{
    let mut name = remove_char(now, ':');
    append_str(&mut name, "-");
    append_str(&mut name, hash);
    append_str(&mut name, ".json");
    name
}

/// The file name under which a recorded handoff is kept.
pub fn handoff_blob_name(handoff_id: &str) -> (r: String)
    ensures
        r@ == handoff_id@ + ".json"@,
{
    let mut name = owned(handoff_id);
    append_str(&mut name, ".json");
    name
}

/// A text as a JSON string, a missing one as `null`.
pub open spec fn text_or_null(o: Option<Seq<char>>) -> JsonV {
    match o {
        Some(t) => JsonV::Str(t),
        None => JsonV::Null,
    }
}

/// One stored event in the redacted snapshot of a thread (members in sorted
/// order, as `serde_json` keeps them).
pub open spec fn snapshot_entry(role: Seq<char>, kind: Seq<char>, content: Option<Seq<char>>, created_at: Option<Seq<char>>) -> JsonV {
    JsonV::Object(
        seq![
            ("content"@, text_or_null(content)),
            ("created_at"@, text_or_null(created_at)),
            ("kind"@, JsonV::Str(kind)),
            ("role"@, JsonV::Str(role)),
        ],
    )
}

/// A stored event as read back for the snapshot: role, kind, content and
/// creation time.
pub type StoredEvent = (String, String, Option<String>, Option<String>);

fn text_or_null_json(o: &Option<String>) -> (r: Json)
    ensures
        r.deep() == text_or_null(opt_text(*o)),
{
    match o {
        Some(t) => Json::Str(t.clone()),
        None => Json::Null,
    }
}

/// The redacted snapshot of a thread written after each batch: an array with
/// one object per stored event, in the order given.
pub fn redacted_snapshot(rows: &Vec<StoredEvent>) -> (r: Json)
    ensures
        r.deep() == JsonV::Array(
            rows@.map_values(|e: StoredEvent| snapshot_entry(e.0@, e.1@, opt_text(e.2), opt_text(e.3))),
        ),
{
    let ghost want = rows@.map_values(|e: StoredEvent| snapshot_entry(e.0@, e.1@, opt_text(e.2), opt_text(e.3)));
    let mut items: Vec<Json> = Vec::new();
    let mut i: usize = 0;
    while i < rows.len()
        invariant
            i <= rows.len(),
            want == rows@.map_values(|e: StoredEvent| snapshot_entry(e.0@, e.1@, opt_text(e.2), opt_text(e.3))),
            items@.len() == i,
            forall|k: int| 0 <= k < i ==> (#[trigger] items@[k]).deep() == want[k],
        decreases rows.len() - i,
    {
        let row = &rows[i];
        let item = object4(
            "content",
            text_or_null_json(&row.2),
            "created_at",
            text_or_null_json(&row.3),
            "kind",
            Json::Str(row.1.clone()),
            "role",
            Json::Str(row.0.clone()),
        );
        proof {
            reveal_strlit("role");
            reveal_strlit("kind");
            reveal_strlit("content");
            reveal_strlit("created_at");
        }
        items.push(item);
        i = i + 1;
    }
    let r = Json::Array(items);
    assert(r.deep() == JsonV::Array(want)) by {
        if let JsonV::Array(a) = r.deep() {
            assert(a =~= want);
        }
    }
    r
}

} // verus!
