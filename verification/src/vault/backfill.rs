//! Importing coding-agent session logs into the vault: the session fields,
//! title and event hashes derived from a log's parsed lines.

use vstd::prelude::*;
use crate::domain::api_key::token_hash_text;
use crate::fields::{fields, join_fields, join_with, separator};
use crate::json::{compact, str_member, str_member_of, strip_nuls_json, without_nul_strings, Json, JsonV};
use crate::text::{
    last_index_of, text_le, text_le_of, byte_len, chars_of, concat3, concat_str, ends_with_chars, has_prefix, has_suffix, owned,
    starts_with_chars, str_byte_len, str_eq, string_from_chars, sub_chars, without_nul,
};
use crate::vault::session_import::{events_view, opt_text, EventImport, EventV};
use crate::vault::titles::{
    compact_title, compact_title_text, fit_prefix, fit_prefix_len, has_words, has_words_spec,
    lemma_fit_prefix_monotone, title_words,
};
use crate::vault::{strip_nuls, strip_nuls_opt, token_hash};

verus! {

/// The content of the first user event whose content has words.
pub open spec fn first_user_words(events: Seq<EventV>) -> Option<Seq<char>>
    decreases events.len(),
{
    if events.len() == 0 {
        None
    } else {
        let e = events[0];
        if e.role == "user"@ && (e.content matches Some(c) && has_words_spec(c)) {
            e.content
        } else {
            first_user_words(events.skip(1))
        }
    }
}

/// The importer cuts a long title at byte 80, which must fall between two
/// characters.
pub open spec fn title_cut_fits(content: Seq<char>) -> bool {
    let text = title_words(content);
    byte_len(text) <= 80 || byte_len(text.take(fit_prefix_len(text, 80) as int)) == 80
}

/// The title of an imported session: the compacted first user message with
/// words.
pub open spec fn session_title(events: Seq<EventV>) -> Option<Seq<char>> {
    match first_user_words(events) {
        Some(c) => Some(compact_title_text(c)),
        None => None,
    }
}

/// The importer can title these events without cutting inside a character.
pub open spec fn session_title_fits(events: Seq<EventV>) -> bool {
    match first_user_words(events) {
        Some(c) => title_cut_fits(c),
        None => true,
    }
}

/// The content of the first user event with words.
fn find_user_words(events: &[EventImport]) -> (r: Option<&str>)
    ensures
        match r {
            Some(c) => first_user_words(events_view(events@)) == Some(c@),
            None => first_user_words(events_view(events@)) is None,
        },
{
    let ghost all = events_view(events@);
    let mut i: usize = 0;
    assert(all.skip(0) =~= all);
    while i < events.len()
        invariant
            i <= events.len(),
            all == events_view(events@),
            first_user_words(all) == first_user_words(all.skip(i as int)),
        decreases events.len() - i,
    {
        let e = &events[i];
        assert(all.skip(i as int)[0] == e.event_view());
        if str_eq(e.role.as_str(), "user") {
            match &e.content {
                Some(c) => {
                    if has_words(c.as_str()) {
                        return Some(c.as_str());
                    }
                },
                None => {},
            }
        }
        assert(all.skip(i as int).skip(1) =~= all.skip(i + 1));
        i = i + 1;
    }
    None
}

/// Whether the title of `content` can be cut at byte 80 without splitting a
/// character.
pub fn title_fits(content: &str) -> (r: bool)
    ensures
        r == title_cut_fits(content@),
{
    let words = crate::vault::titles::title_words_of(content);
    let text = string_from_chars(words.as_slice());
    if str_byte_len(text.as_str()) <= 80 {
        return true;
    }
    let k = fit_prefix(words.as_slice(), 80);
    let head = sub_chars(words.as_slice(), 0, k);
    assert(head@ =~= words@.take(k as int));
    let h = string_from_chars(head.as_slice());
    str_byte_len(h.as_str()) == 80
}

/// Whether the events can be titled by `derive_title`.
pub fn derive_title_supported(events: &[EventImport]) -> (r: bool)
    ensures
        r == session_title_fits(events_view(events@)),
{
    match find_user_words(events) {
        Some(c) => title_fits(c),
        None => true,
    }
}

/// The title of an imported session.
pub fn derive_title(events: &[EventImport]) -> (r: Option<String>)
    requires
        session_title_fits(events_view(events@)),
    ensures
        opt_text(r) == session_title(events_view(events@)),
{
    match find_user_words(events) {
        Some(c) => Some(compact_title(c)),
        None => None,
    }
}

/// The working directory encoded in a session directory name such as
/// `--home-me-project--`: its dash-separated parts joined under `/`.
pub open spec fn cwd_from_dir_name_spec(name: Seq<char>) -> Option<Seq<char>> {
    let parts = fields(name, separator(false, '-'));
    if has_prefix(name, "--"@) && has_suffix(name, "--"@) && parts.len() > 0 {
        Some("/"@ + join_with(parts, "/"@))
    } else {
        None
    }
}

/// The working directory encoded in the name of a session file's directory.
pub fn cwd_from_dir_name(name: &str) -> (r: Option<String>)
    ensures
        opt_text(r) == cwd_from_dir_name_spec(name@),
{
    let v = chars_of(name);
    let dashes: Vec<char> = vec!['-', '-'];
    proof {
        reveal_strlit("--");
        reveal_strlit("/");
        assert(dashes@ =~= "--"@);
        assert(seq!['/'] =~= "/"@);
    }
    if starts_with_chars(v.as_slice(), dashes.as_slice()) && ends_with_chars(
        v.as_slice(),
        dashes.as_slice(),
    ) {
        let joined = join_fields(v.as_slice(), false, '-', '/');
        if joined.len() > 0 {
            let tail = string_from_chars(joined.as_slice());
            return Some(concat_str("/", tail.as_str()));
        }
        proof {
            let parts = fields(name@, separator(false, '-'));
            if parts.len() > 0 {
                crate::fields::lemma_fields_not_empty(name@, separator(false, '-'));
                lemma_join_nonempty(parts);
            }
        }
    }
    None
}

/// Joining at least one field gives non-empty text.
proof fn lemma_join_nonempty(parts: Seq<Seq<char>>)
    requires
        parts.len() > 0,
        forall|i: int| 0 <= i < parts.len() ==> (#[trigger] parts[i]).len() > 0,
    ensures
        join_with(parts, "/"@).len() > 0,
    decreases parts.len(),
{
    if parts.len() > 1 {
        lemma_join_nonempty(parts.drop_last());
    }
}

/// The file name has a character boundary at byte `b`.
pub open spec fn boundary_at(s: Seq<char>, b: int) -> bool {
    byte_len(s.take(fit_prefix_len(s, b) as int)) == b
}

/// The importer can read a timestamp from this file name: it is shorter than
/// 19 bytes, or its bytes 0..10 and 11..19 are whole characters.
pub open spec fn filename_timestamp_ok(name: Seq<char>) -> bool {
    byte_len(name) < 19 || (boundary_at(name, 10) && boundary_at(name, 11) && boundary_at(name, 19))
}

/// `s` with every `-` replaced by `:`.
pub open spec fn dashes_to_colons(s: Seq<char>) -> Seq<char> {
    s.map_values(|c: char| if c == '-' { ':' } else { c })
}

/// The creation time read from a session file name such as
/// `2024-05-01T10-20-30-000Z_<id>.jsonl`: bytes 0..10 as the date, bytes
/// 11..19 with `-` turned into `:` as the time; the epoch when the name is
/// shorter than 19 bytes.
pub open spec fn filename_timestamp(name: Seq<char>) -> Seq<char> {
    if byte_len(name) >= 19 {
        name.take(fit_prefix_len(name, 10) as int) + "T"@ + dashes_to_colons(
            name.subrange(fit_prefix_len(name, 11) as int, fit_prefix_len(name, 19) as int),
        ) + "Z"@
    } else {
        "1970-01-01T00:00:00Z"@
    }
}

/// The creation time read from a session file name.
pub fn timestamp_from_filename(name: &str) -> (r: String)
    requires
        filename_timestamp_ok(name@),
    ensures
        r@ == filename_timestamp(name@),
{
    if str_byte_len(name) >= 19 {
        let v = chars_of(name);
        let k10 = fit_prefix(v.as_slice(), 10);
        let k11 = fit_prefix(v.as_slice(), 11);
        let k19 = fit_prefix(v.as_slice(), 19);
        proof {
            lemma_fit_prefix_monotone(name@, 11, 19);
        }
        let date = sub_chars(v.as_slice(), 0, k10);
        let time = sub_chars(v.as_slice(), k11, k19);
        let mut out = date;
        out.push('T');
        let mut i: usize = 0;
        let ghost base = out@;
        while i < time.len()
            invariant
                i <= time.len(),
                out@ == base + dashes_to_colons(time@.take(i as int)),
            decreases time.len() - i,
        {
            let c = time[i];
            out.push(if c == '-' { ':' } else { c });
            assert(dashes_to_colons(time@.take(i + 1)) =~= dashes_to_colons(time@.take(i as int)).push(
                if c == '-' { ':' } else { c },
            ));
            i = i + 1;
        }
        out.push('Z');
        proof {
            reveal_strlit("T");
            reveal_strlit("Z");
            assert(time@.take(time.len() as int) =~= time@);
            assert(date@ =~= name@.take(fit_prefix_len(name@, 10) as int));
            assert(out@ =~= filename_timestamp(name@));
        }
        string_from_chars(out.as_slice())
    } else {
        owned("1970-01-01T00:00:00Z")
    }
}

/// `rest` appended to the path `base` (`Path::join` on Unix): an absolute
/// `rest` replaces `base`, and a separator is added when `base` does not end
/// with one.
pub open spec fn joined_path(base: Seq<char>, rest: Seq<char>) -> Seq<char> {
    if rest.len() > 0 && rest[0] == '/' {
        rest
    } else if base.len() == 0 || base.last() == '/' {
        base + rest
    } else {
        base + "/"@ + rest
    }
}

/// `~` and `~/…` resolved against the home directory.
pub open spec fn expanded_path(path: Seq<char>, home: Seq<char>) -> Seq<char> {
    if path == "~"@ {
        home
    } else if has_prefix(path, "~/"@) {
        joined_path(home, path.skip(2))
    } else {
        path
    }
}

/// Resolves a leading `~` against the home directory `home`.
pub fn expand_tilde(path: &str, home: &str) -> (r: String)
    ensures
        r@ == expanded_path(path@, home@),
{
    proof {
        reveal_strlit("~");
        reveal_strlit("~/");
        reveal_strlit("/");
    }
    let v = chars_of(path);
    if v.len() == 1 && v[0] == '~' {
        assert(path@ =~= "~"@);
        return owned(home);
    }
    assert(path@ != "~"@);
    let prefix: Vec<char> = vec!['~', '/'];
    assert(prefix@ =~= "~/"@);
    if starts_with_chars(v.as_slice(), prefix.as_slice()) {
        let rest_chars = sub_chars(v.as_slice(), 2, v.len());
        assert(rest_chars@ =~= path@.skip(2));
        let rest = string_from_chars(rest_chars.as_slice());
        let h = chars_of(home);
        if rest_chars.len() > 0 && rest_chars[0] == '/' {
            rest
        } else if h.len() == 0 || h[h.len() - 1] == '/' {
            concat_str(home, rest.as_str())
        } else {
            concat3(home, "/", rest.as_str())
        }
    } else {
        owned(path)
    }
}

/// A log line that opens the session (`"type": "session"`).
pub open spec fn is_session_header(v: JsonV) -> bool {
    str_member(v, "type"@) == Some("session"@)
}

/// `p` is the position of the first session header among `vs`.
pub open spec fn header_at(vs: Seq<JsonV>, p: int) -> bool {
    &&& 0 <= p < vs.len()
    &&& is_session_header(vs[p])
    &&& forall|k: int| 0 <= k < p ==> !is_session_header(#[trigger] vs[k])
}

/// Position of the session header, or -1 when no line is one.
pub open spec fn header_index(vs: Seq<JsonV>) -> int {
    if exists|p: int| header_at(vs, p) {
        choose|p: int| header_at(vs, p)
    } else {
        -1
    }
}

/// The first header is unique.
proof fn lemma_header_unique(vs: Seq<JsonV>, p: int)
    requires
        header_at(vs, p),
    ensures
        header_index(vs) == p,
{
    let q = header_index(vs);
    assert(header_at(vs, q));
    if q < p {
        assert(!is_session_header(vs[q]));
    } else if p < q {
        assert(!is_session_header(vs[p]));
    }
}

/// The lines of a log that are entries: all but the header.
pub open spec fn entry_lines(vs: Seq<JsonV>) -> Seq<JsonV> {
    let p = header_index(vs);
    if p < 0 {
        vs
    } else {
        vs.take(p) + vs.skip(p + 1)
    }
}

/// The lines of a log split into the session header (the first line of type
/// `session`) and the entries.
pub fn split_session_lines(values: &Vec<Json>) -> (r: (Option<Json>, Vec<Json>))
    ensures
        match r.0 {
            Some(h) => header_index(values@.map_values(|v: Json| v.deep())) >= 0 && h.deep()
                == values@.map_values(|v: Json| v.deep())[header_index(
                values@.map_values(|v: Json| v.deep()),
            )],
            None => header_index(values@.map_values(|v: Json| v.deep())) < 0,
        },
        r.1@.map_values(|v: Json| v.deep()) == entry_lines(values@.map_values(|v: Json| v.deep())),
{
    let ghost vs = values@.map_values(|v: Json| v.deep());
    let mut header: Option<Json> = None;
    let mut found: usize = 0;
    let mut entries: Vec<Json> = Vec::new();
    let mut i: usize = 0;
    while i < values.len()
        invariant
            i <= values.len(),
            vs == values@.map_values(|v: Json| v.deep()),
            match header {
                Some(h) => header_at(vs, found as int) && found < i && h.deep() == vs[found as int]
                    && entries@.map_values(|v: Json| v.deep()) =~= vs.take(found as int) + vs.subrange(
                    found + 1,
                    i as int,
                ),
                None => (forall|k: int| 0 <= k < i ==> !is_session_header(#[trigger] vs[k]))
                    && entries@.map_values(|v: Json| v.deep()) =~= vs.take(i as int),
            },
        decreases values.len() - i,
    {
        let v = &values[i];
        let is_header = match str_member_of(v, "type") {
            Some(t) => str_eq(t, "session"),
            None => false,
        };
        assert(is_header == is_session_header(vs[i as int]));
        if header.is_none() && is_header {
            header = Some(v.deep_clone());
            found = i;
            assert(header_at(vs, i as int));
        } else {
            let ghost before = entries@;
            entries.push(v.deep_clone());
            assert(entries@.map_values(|v: Json| v.deep()) =~= before.map_values(|v: Json| v.deep()).push(
                vs[i as int],
            ));
        }
        i = i + 1;
    }
    proof {
        match header {
            Some(_) => {
                lemma_header_unique(vs, found as int);
                assert(vs.subrange(found + 1, vs.len() as int) =~= vs.skip(found + 1));
            },
            None => {
                assert(!exists|p: int| header_at(vs, p));
                assert(vs.take(vs.len() as int) =~= vs);
            },
        }
    }
    (header, entries)
}

/// The session id in a log file stem `<time>_<id>`: the part after the last
/// underscore, or `unknown`.
pub open spec fn stem_session_id(stem: Seq<char>) -> Seq<char> {
    let j = last_index_of(stem, '_');
    if j >= 0 {
        stem.skip(j + 1)
    } else {
        "unknown"@
    }
}

/// The session id in a log file stem.
pub fn session_id_from_stem(stem: &str) -> (r: String)
    ensures
        r@ == stem_session_id(stem@),
{
    let v = chars_of(stem);
    let mut j: usize = v.len();
    assert(v@.take(v.len() as int) =~= v@);
    while j > 0 && v[j - 1] != '_'
        invariant
            j <= v.len(),
            v@ == stem@,
            last_index_of(stem@, '_') == last_index_of(stem@.take(j as int), '_'),
        decreases j,
    {
        assert(stem@.take(j as int).drop_last() =~= stem@.take(j - 1));
        j = j - 1;
    }
    if j == 0 {
        assert(stem@.take(0) =~= Seq::<char>::empty());
        owned("unknown")
    } else {
        let tail = sub_chars(v.as_slice(), j, v.len());
        assert(tail@ =~= stem@.skip(j as int));
        string_from_chars(tail.as_slice())
    }
}

/// The creation times of the events that have one, in order.
pub open spec fn event_times(events: Seq<EventV>) -> Seq<Seq<char>>
    decreases events.len(),
{
    if events.len() == 0 {
        Seq::empty()
    } else {
        let prev = event_times(events.drop_last());
        match events.last().created_at {
            Some(t) => prev.push(t),
            None => prev,
        }
    }
}

/// The greatest of the texts (`Iterator::max`), or `None` for none.
pub open spec fn latest(ts: Seq<Seq<char>>) -> Option<Seq<char>>
    decreases ts.len(),
{
    if ts.len() == 0 {
        None
    } else {
        match latest(ts.drop_last()) {
            None => Some(ts.last()),
            Some(m) => if text_le(m, ts.last()) {
                Some(ts.last())
            } else {
                Some(m)
            },
        }
    }
}

/// The latest event creation time, if any event has one.
pub fn latest_event_time(events: &[EventImport]) -> (r: Option<String>)
    ensures
        opt_text(r) == latest(event_times(events_view(events@))),
{
    let ghost all = events_view(events@);
    let mut best: Option<Vec<char>> = None;
    let mut i: usize = 0;
    assert(all.take(0) =~= Seq::<EventV>::empty());
    while i < events.len()
        invariant
            i <= events.len(),
            all == events_view(events@),
            match best {
                Some(b) => latest(event_times(all.take(i as int))) == Some(b@),
                None => latest(event_times(all.take(i as int))) is None,
            },
        decreases events.len() - i,
    {
        proof {
            let t = all.take(i + 1);
            assert(t.drop_last() =~= all.take(i as int));
            assert(t.last() == events@[i as int].event_view());
        }
        match &events[i].created_at {
            Some(ts) => {
                proof {
                    let t = all.take(i + 1);
                    assert(event_times(t) == event_times(all.take(i as int)).push(ts@));
                    let nt = event_times(all.take(i as int)).push(ts@);
                    assert(nt.drop_last() =~= event_times(all.take(i as int)));
                    assert(nt.last() == ts@);
                }
                let c = chars_of(ts.as_str());
                let take_new = match &best {
                    None => true,
                    Some(b) => text_le_of(b.as_slice(), c.as_slice()),
                };
                if take_new {
                    best = Some(c);
                }
            },
            None => {
                proof {
                    let t = all.take(i + 1);
                    assert(event_times(t) == event_times(all.take(i as int)));
                }
            },
        }
        i = i + 1;
    }
    assert(all.take(events.len() as int) =~= all);
    match best {
        Some(b) => Some(string_from_chars(b.as_slice())),
        None => None,
    }
}

/// The optional text as JSON: a string, or `null`.
pub open spec fn opt_json(o: Option<Seq<char>>) -> JsonV {
    match o {
        Some(s) => JsonV::Str(s),
        None => JsonV::Null,
    }
}

/// The payload hashed to recognise an event again: its identifying fields
/// under sorted member names.
pub open spec fn event_hash_payload(session_id: Seq<char>, e: EventV) -> JsonV {
    JsonV::Object(
        seq![
            ("content"@, opt_json(e.content)),
            ("created_at"@, opt_json(e.created_at)),
            ("external_event_id"@, JsonV::Str(e.external_event_id)),
            ("kind"@, JsonV::Str(e.kind)),
            ("role"@, JsonV::Str(e.role)),
            ("session"@, JsonV::Str(session_id)),
        ],
    )
}

/// The optional text as a JSON document.
fn opt_json_of(o: &Option<String>) -> (r: Json)
    ensures
        r.deep() == opt_json(opt_text(*o)),
{
    match o {
        Some(s) => Json::Str(s.clone()),
        None => Json::Null,
    }
}

/// The hash identifying an event of a session: `sha256:` and the hex SHA-256
/// of the compact JSON of its identifying fields.
pub fn event_hash(session_id: &str, event: &EventImport) -> (r: String)
    ensures
        r@ == token_hash_text(compact(event_hash_payload(session_id@, event.event_view()))),
{
    let content = opt_json_of(&event.content);
    let created = opt_json_of(&event.created_at);
    let id = Json::Str(event.external_event_id.clone());
    let kind = Json::Str(event.kind.clone());
    let role = Json::Str(event.role.clone());
    let session = Json::Str(owned(session_id));
    let ghost d = seq![
        ("content"@, content.deep()),
        ("created_at"@, created.deep()),
        ("external_event_id"@, id.deep()),
        ("kind"@, kind.deep()),
        ("role"@, role.deep()),
        ("session"@, session.deep()),
    ];
    let payload = Json::Object(
        vec![
            (owned("content"), content),
            (owned("created_at"), created),
            (owned("external_event_id"), id),
            (owned("kind"), kind),
            (owned("role"), role),
            (owned("session"), session),
        ],
    );
    assert(payload.deep() == event_hash_payload(session_id@, event.event_view())) by {
        if let JsonV::Object(ms) = payload.deep() {
            assert(ms =~= d);
        }
    }
    let text = payload.to_compact();
    token_hash(text.as_str())
}

/// A session read from a log, ready to be stored.
#[derive(Debug)]
pub struct SessionImport {
    pub external_session_id: String,
    pub title: Option<String>,
    pub cwd: Option<String>,
    pub repo_remote: Option<String>,
    pub repo_branch: Option<String>,
    pub repo_head: Option<String>,
    pub created_at: String,
    pub updated_at: String,
    pub events: Vec<EventImport>,
}

/// The lines of a log as documents.
pub open spec fn lines_view(values: Seq<Json>) -> Seq<JsonV> {
    values.map_values(|v: Json| v.deep())
}

/// The string member `key` of the session header.
pub open spec fn header_str(vs: Seq<JsonV>, key: Seq<char>) -> Option<Seq<char>> {
    let p = header_index(vs);
    if p >= 0 {
        str_member(vs[p], key)
    } else {
        None
    }
}

/// The events of a log: those of its entry lines.
pub open spec fn log_events(vs: Seq<JsonV>) -> Seq<EventV> {
    crate::vault::session_import::entries_events(entry_lines(vs))
}

/// The session id: the header's `id`, or the one in the file stem.
pub open spec fn log_session_id(vs: Seq<JsonV>, stem: Seq<char>) -> Seq<char> {
    match header_str(vs, "id"@) {
        Some(id) => id,
        None => stem_session_id(stem),
    }
}

/// The working directory: the header's `cwd`, or the one encoded in the
/// name of the log's directory.
pub open spec fn log_cwd(vs: Seq<JsonV>, dir_name: Option<Seq<char>>) -> Option<Seq<char>> {
    match header_str(vs, "cwd"@) {
        Some(c) => Some(c),
        None => match dir_name {
            Some(d) => cwd_from_dir_name_spec(d),
            None => None,
        },
    }
}

/// The header's `cwd` wins: when the header carries a string `cwd`, the
/// session's working directory is exactly that, whatever the directory name;
/// the directory name is read only when the header has none, and without
/// either there is no working directory.
pub proof fn lemma_header_cwd_wins(vs: Seq<JsonV>, dir_name: Option<Seq<char>>)
    ensures
        header_str(vs, "cwd"@) matches Some(c) ==> log_cwd(vs, dir_name) == Some(c),
        header_str(vs, "cwd"@) is None && dir_name is None ==> log_cwd(vs, dir_name) is None,
        header_str(vs, "cwd"@) is None ==> (dir_name matches Some(d) ==> log_cwd(vs, dir_name)
            == cwd_from_dir_name_spec(d)),
{
}

/// The creation time is read from the file name only when neither the
/// header nor the first event carries one.
pub open spec fn needs_filename_time(vs: Seq<JsonV>) -> bool {
    header_str(vs, "timestamp"@) is None && (log_events(vs).len() == 0 || log_events(vs)[0].created_at
        is None)
}

/// The creation time: the header's `timestamp`, else the first event's, else
/// the one in the file name.
pub open spec fn log_created_at(vs: Seq<JsonV>, file_name: Seq<char>) -> Seq<char> {
    match header_str(vs, "timestamp"@) {
        Some(t) => t,
        None => if log_events(vs).len() > 0 && log_events(vs)[0].created_at is Some {
            log_events(vs)[0].created_at.unwrap()
        } else {
            filename_timestamp(file_name)
        },
    }
}

/// The importer handles this log without failing: the title can be cut and,
/// when the file name is read, it holds a timestamp.
pub open spec fn log_supported(vs: Seq<JsonV>, file_name: Seq<char>) -> bool {
    &&& session_title_fits(log_events(vs))
    &&& needs_filename_time(vs) ==> filename_timestamp_ok(file_name)
}

/// The string member `key` of the header, if there is one.
fn header_str_of(header: &Option<Json>, key: &str) -> (r: Option<String>)
    ensures
        opt_text(r) == match header {
            Some(h) => str_member(h.deep(), key@),
            None => None,
        },
{
    match header {
        Some(h) => match str_member_of(h, key) {
            Some(s) => Some(owned(s)),
            None => None,
        },
        None => None,
    }
}

/// The working directory of a log, from its header or its directory's name.
pub fn session_cwd(values: &Vec<Json>, dir_name: Option<&str>) -> (r: Option<String>)
    ensures
        opt_text(r) == log_cwd(
            lines_view(values@),
            match dir_name {
                Some(d) => Some(d@),
                None => None,
            },
        ),
        header_str(lines_view(values@), "cwd"@) matches Some(c) ==> opt_text(r) == Some(c),
        header_str(lines_view(values@), "cwd"@) is None ==> opt_text(r) == match dir_name {
            Some(d) => cwd_from_dir_name_spec(d@),
            None => None::<Seq<char>>,
        },
{
    let (header, _entries) = split_session_lines(values);
    match header_str_of(&header, "cwd") {
        Some(c) => Some(c),
        None => match dir_name {
            Some(d) => cwd_from_dir_name(d),
            None => None,
        },
    }
}

/// Whether the importer handles this log without failing.
pub fn session_supported(values: &Vec<Json>, file_name: &str) -> (r: bool)
    ensures
        r == log_supported(lines_view(values@), file_name@),
{
    let (header, entries) = split_session_lines(values);
    let events = crate::vault::session_import::events_from_entries(entries);
    let title_ok = derive_title_supported(events.as_slice());
    let needs_name = header_str_of(&header, "timestamp").is_none() && (events.len() == 0
        || events[0].created_at.is_none());
    if needs_name {
        title_ok && filename_timestamp_supported(file_name)
    } else {
        title_ok
    }
}

/// Whether a timestamp can be read from this file name.
pub fn filename_timestamp_supported(name: &str) -> (r: bool)
    ensures
        r == filename_timestamp_ok(name@),
{
    if str_byte_len(name) < 19 {
        return true;
    }
    let v = chars_of(name);
    boundary_of(v.as_slice(), 10) && boundary_of(v.as_slice(), 11) && boundary_of(v.as_slice(), 19)
}

/// Whether `s` has a character boundary at byte `b`.
fn boundary_of(s: &[char], b: usize) -> (r: bool)
    requires
        b <= 80,
    ensures
        r == boundary_at(s@, b as int),
{
    let k = fit_prefix(s, b);
    let head = sub_chars(s, 0, k);
    assert(head@ =~= s@.take(k as int));
    let t = string_from_chars(head.as_slice());
    str_byte_len(t.as_str()) == b
}

/// Builds the session of a log from its parsed lines, its file stem and name,
/// the name of its directory, and the repository state found for its working
/// directory.
pub fn build_session(
    values: &Vec<Json>,
    file_stem: &str,
    file_name: &str,
    dir_name: Option<&str>,
    repo_remote: Option<String>,
    repo_branch: Option<String>,
    repo_head: Option<String>,
) -> (r: SessionImport)
    requires
        log_supported(lines_view(values@), file_name@),
    ensures
        r.external_session_id@ == log_session_id(lines_view(values@), file_stem@),
        opt_text(r.cwd) == log_cwd(
            lines_view(values@),
            match dir_name {
                Some(d) => Some(d@),
                None => None,
            },
        ),
        header_str(lines_view(values@), "cwd"@) matches Some(c) ==> opt_text(r.cwd) == Some(c),
        header_str(lines_view(values@), "cwd"@) is None ==> opt_text(r.cwd) == match dir_name {
            Some(d) => cwd_from_dir_name_spec(d@),
            None => None::<Seq<char>>,
        },
        events_view(r.events@) == log_events(lines_view(values@)),
        opt_text(r.title) == session_title(log_events(lines_view(values@))),
        r.created_at@ == log_created_at(lines_view(values@), file_name@),
        r.updated_at@ == text_or_latest(
            latest(event_times(log_events(lines_view(values@)))),
            log_created_at(lines_view(values@), file_name@),
        ),
        opt_text(r.repo_remote) == opt_text(repo_remote),
        opt_text(r.repo_branch) == opt_text(repo_branch),
        opt_text(r.repo_head) == opt_text(repo_head),
{
    let (header, entries) = split_session_lines(values);
    let events = crate::vault::session_import::events_from_entries(entries);
    let session_id = match header_str_of(&header, "id") {
        Some(id) => id,
        None => session_id_from_stem(file_stem),
    };
    let cwd = match header_str_of(&header, "cwd") {
        Some(c) => Some(c),
        None => match dir_name {
            Some(d) => cwd_from_dir_name(d),
            None => None,
        },
    };
    let created_at = match header_str_of(&header, "timestamp") {
        Some(t) => t,
        None => {
            let first = if events.len() > 0 {
                match &events[0].created_at {
                    Some(t) => Some(t.clone()),
                    None => None,
                }
            } else {
                None
            };
            match first {
                Some(t) => t,
                None => timestamp_from_filename(file_name),
            }
        },
    };
    let updated_at = match latest_event_time(events.as_slice()) {
        Some(t) => t,
        None => created_at.clone(),
    };
    let title = derive_title(events.as_slice());
    SessionImport {
        external_session_id: session_id,
        title,
        cwd,
        repo_remote,
        repo_branch,
        repo_head,
        created_at,
        updated_at,
        events,
    }
}

/// `o`, or `d` when absent.
pub open spec fn text_or_latest(o: Option<Seq<char>>, d: Seq<char>) -> Seq<char> {
    match o {
        Some(t) => t,
        None => d,
    }
}

/// The column values stored for an imported event.
#[derive(Debug)]
pub struct EventRow {
    pub external_event_id: String,
    pub parent_external_event_id: Option<String>,
    pub event_hash: String,
    pub role: String,
    pub kind: String,
    pub content: Option<String>,
    pub metadata_json: String,
    pub created_at: Option<String>,
    pub inserted_at: String,
}

/// The column values stored for an imported event of `session`: texts
/// without NUL characters, the event hash (of the texts as read), the compact
/// metadata without NUL characters, and the insertion time (the event's own,
/// or the session's last update).
pub fn event_row(session_id: &str, session_updated_at: &str, event: &EventImport) -> (r: EventRow)
    ensures
        r.external_event_id@ == without_nul(event.external_event_id@),
        opt_text(r.parent_external_event_id) == crate::vault::api::opt_without_nul(
            event.parent_external_event_id,
        ),
        r.event_hash@ == token_hash_text(
            compact(event_hash_payload(session_id@, event.event_view())),
        ),
        r.role@ == without_nul(event.role@),
        r.kind@ == without_nul(event.kind@),
        opt_text(r.content) == crate::vault::api::opt_without_nul(event.content),
        r.metadata_json@ == compact(without_nul_strings(event.metadata.deep())),
        opt_text(r.created_at) == opt_text(event.created_at),
        r.inserted_at@ == match event.created_at {
            Some(t) => t@,
            None => session_updated_at@,
        },
{
    let hash = event_hash(session_id, event);
    let mut metadata = event.metadata.deep_clone();
    strip_nuls_json(&mut metadata);
    let created_at = match &event.created_at {
        Some(t) => Some(t.clone()),
        None => None,
    };
    let inserted_at = match &event.created_at {
        Some(t) => t.clone(),
        None => owned(session_updated_at),
    };
    EventRow {
        external_event_id: strip_nuls(event.external_event_id.as_str()),
        parent_external_event_id: strip_nuls_opt(opt_clone(&event.parent_external_event_id)),
        event_hash: hash,
        role: strip_nuls(event.role.as_str()),
        kind: strip_nuls(event.kind.as_str()),
        content: strip_nuls_opt(opt_clone(&event.content)),
        metadata_json: metadata.to_compact(),
        created_at,
        inserted_at,
    }
}

/// A copy of an optional string.
fn opt_clone(o: &Option<String>) -> (r: Option<String>)
    ensures
        opt_text(r) == opt_text(*o),
{
    match o {
        Some(s) => Some(s.clone()),
        None => None,
    }
}

} // verus!
