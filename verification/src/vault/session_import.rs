//! Turning the entries of a coding-agent session log into vault events.

use vstd::prelude::*;
use crate::json::{
    member, object1, object2, object3, object4, pretty_text, str_member, str_member_of, str_of, to_pretty, Json, JsonV,
};
use crate::text::{append_str, concat3, concat_str, decimal, owned, str_eq, usize_to_decimal};

verus! {

/// One event to import into the vault.
#[derive(Debug)]
pub struct EventImport {
    pub external_event_id: String,
    pub parent_external_event_id: Option<String>,
    pub role: String,
    pub kind: String,
    pub content: Option<String>,
    pub metadata: Json,
    pub created_at: Option<String>,
}

/// The mathematical form of an event.
pub struct EventV {
    pub external_event_id: Seq<char>,
    pub parent_external_event_id: Option<Seq<char>>,
    pub role: Seq<char>,
    pub kind: Seq<char>,
    pub content: Option<Seq<char>>,
    pub metadata: JsonV,
    pub created_at: Option<Seq<char>>,
}

/// The text of an optional string.
pub open spec fn opt_text(o: Option<String>) -> Option<Seq<char>> {
    match o {
        Some(s) => Some(s@),
        None => None,
    }
}

impl EventImport {
    /// The event as a mathematical value.
    pub open spec fn event_view(self) -> EventV {
        EventV {
            external_event_id: self.external_event_id@,
            parent_external_event_id: opt_text(self.parent_external_event_id),
            role: self.role@,
            kind: self.kind@,
            content: opt_text(self.content),
            metadata: self.metadata.deep(),
            created_at: opt_text(self.created_at),
        }
    }
}

/// The mathematical forms of a list of events.
pub open spec fn events_view(v: Seq<EventImport>) -> Seq<EventV> {
    v.map_values(|e: EventImport| e.event_view())
}

/// `o`, or `d` when absent.
pub open spec fn text_or(o: Option<Seq<char>>, d: Seq<char>) -> Seq<char> {
    match o {
        Some(t) => t,
        None => d,
    }
}

/// The document, or `null` when absent (how `serde_json` prints an absent value).
pub open spec fn json_or_null(o: Option<JsonV>) -> JsonV {
    match o {
        Some(v) => v,
        None => JsonV::Null,
    }
}

/// The text an array item contributes: a string itself, or the string under
/// `text` (or, when there is no `text` member, under `content`).
pub open spec fn item_text(item: JsonV) -> Option<Seq<char>> {
    match item {
        JsonV::Str(s) => Some(s),
        _ => match member(item, "text"@) {
            Some(t) => str_of(Some(t)),
            None => str_member(item, "content"@),
        },
    }
}

/// The texts the items contribute, in order.
pub open spec fn item_texts(items: Seq<JsonV>) -> Seq<Seq<char>>
    decreases items.len(),
{
    if items.len() == 0 {
        Seq::empty()
    } else {
        let prev = item_texts(items.drop_last());
        match item_text(items.last()) {
            Some(t) => prev.push(t),
            None => prev,
        }
    }
}

/// The parts joined with line breaks.
pub open spec fn join_lines(parts: Seq<Seq<char>>) -> Seq<char>
    decreases parts.len(),
{
    if parts.len() == 0 {
        Seq::empty()
    } else if parts.len() == 1 {
        parts[0]
    } else {
        join_lines(parts.drop_last()) + "\n"@ + parts.last()
    }
}

/// The readable text of a message's content: a string as is, the texts of an
/// array's items joined by line breaks, nothing for `null`, and the pretty
/// JSON of anything else.
pub open spec fn extracted_text(v: JsonV) -> Seq<char> {
    match v {
        JsonV::Str(s) => s,
        JsonV::Array(items) => join_lines(item_texts(items)),
        JsonV::Null => Seq::empty(),
        _ => pretty_text(v),
    }
}

/// The text an array item contributes.
fn item_text_of(item: &Json) -> (r: Option<String>)
    ensures
        opt_text(r) == item_text(item.deep()),
{
    match item {
        Json::Str(s) => Some(s.clone()),
        _ => match item.get("text") {
            Some(t) => match t.as_str() {
                Some(s) => Some(owned(s)),
                None => None,
            },
            None => match str_member_of(item, "content") {
                Some(s) => Some(owned(s)),
                None => None,
            },
        },
    }
}

/// The readable text of a message's content.
pub fn extract_text(value: &Json) -> (r: String)
    ensures
        r@ == extracted_text(value.deep()),
{
    match value {
        Json::Str(s) => s.clone(),
        Json::Array(items) => {
            let ghost dv = match value.deep() {
                JsonV::Array(dv) => dv,
                _ => Seq::empty(),
            };
            let mut out = String::new();
            let mut any = false;
            let mut i: usize = 0;
            assert(dv.take(0) =~= Seq::<JsonV>::empty());
            while i < items.len()
                invariant
                    i <= items.len(),
                    *value == Json::Array(*items),
                    dv == match value.deep() {
                        JsonV::Array(dv) => dv,
                        _ => Seq::empty(),
                    },
                    out@ == join_lines(item_texts(dv.take(i as int))),
                    any == (item_texts(dv.take(i as int)).len() > 0),
                decreases items.len() - i,
            {
                let ghost prev = item_texts(dv.take(i as int));
                proof {
                    let t = dv.take(i + 1);
                    assert(t.drop_last() =~= dv.take(i as int));
                    assert(t.last() == items@[i as int].deep());
                }
                match item_text_of(&items[i]) {
                    Some(text) => {
                        if any {
                            append_str(&mut out, "\n");
                        }
                        append_str(&mut out, text.as_str());
                        proof {
                            let np = prev.push(text@);
                            assert(np.drop_last() =~= prev);
                            assert(out@ =~= join_lines(np));
                        }
                        any = true;
                    },
                    None => {},
                }
                i = i + 1;
            }
            assert(dv.take(items.len() as int) =~= dv);
            out
        },
        Json::Null => String::new(),
        _ => to_pretty(value),
    }
}

/// The entry kinds that are imported as system events.
pub open spec fn is_system_entry_type(t: Seq<char>) -> bool {
    ||| t == "model_change"@
    ||| t == "thinking_level_change"@
    ||| t == "label"@
    ||| t == "custom_message"@
    ||| t == "compaction"@
    ||| t == "branch_summary"@
}

/// The content of a system event: a summary of a model change, a thinking
/// level change or a label, and otherwise the text of the entry's `content`
/// (or `summary`, or the entry itself).
pub open spec fn entry_summary(entry: JsonV) -> Seq<char> {
    let t = text_or(str_member(entry, "type"@), "unknown"@);
    if t == "model_change"@ {
        "model: "@ + text_or(str_member(entry, "provider"@), Seq::empty()) + "/"@ + text_or(
            str_member(entry, "modelId"@),
            Seq::empty(),
        )
    } else if t == "thinking_level_change"@ {
        "thinking: "@ + text_or(str_member(entry, "thinkingLevel"@), Seq::empty())
    } else if t == "label"@ {
        "label: "@ + text_or(str_member(entry, "label"@), Seq::empty())
    } else {
        extracted_text(
            match member(entry, "content"@) {
                Some(c) => c,
                None => match member(entry, "summary"@) {
                    Some(s) => s,
                    None => entry,
                },
            },
        )
    }
}

/// The string member `key`, or `d`.
fn str_member_or(v: &Json, key: &str, d: &str) -> (r: String)
    ensures
        r@ == text_or(str_member(v.deep(), key@), d@),
{
    match str_member_of(v, key) {
        Some(s) => owned(s),
        None => owned(d),
    }
}

/// The content of a system event.
pub fn summarize_entry(entry: &Json) -> (r: String)
    ensures
        r@ == entry_summary(entry.deep()),
{
    proof {
        reveal_strlit("");
    }
    let t = str_member_or(entry, "type", "unknown");
    if str_eq(t.as_str(), "model_change") {
        let provider = str_member_or(entry, "provider", "");
        let model = str_member_or(entry, "modelId", "");
        let a = concat3("model: ", provider.as_str(), "/");
        concat_str(a.as_str(), model.as_str())
    } else if str_eq(t.as_str(), "thinking_level_change") {
        let level = str_member_or(entry, "thinkingLevel", "");
        concat_str("thinking: ", level.as_str())
    } else if str_eq(t.as_str(), "label") {
        let label = str_member_or(entry, "label", "");
        concat_str("label: ", label.as_str())
    } else {
        match entry.get("content") {
            Some(c) => extract_text(c),
            None => match entry.get("summary") {
                Some(s) => extract_text(s),
                None => extract_text(entry),
            },
        }
    }
}

/// An optional document reference as an optional value.
pub open spec fn opt_deep(o: Option<&Json>) -> Option<JsonV> {
    match o {
        Some(v) => Some(v.deep()),
        None => None,
    }
}

/// The metadata `{"entry": entry}`.
pub open spec fn entry_meta(entry: JsonV) -> JsonV {
    JsonV::Object(seq![("entry"@, entry)])
}

/// The blocks of an assistant message: its content array, or one text block
/// holding the content's text. Objects built here list their members in
/// sorted order, as `serde_json` keeps them.
pub open spec fn assistant_blocks(content: JsonV) -> Seq<JsonV> {
    match content {
        JsonV::Array(a) => a,
        _ => seq![
            JsonV::Object(
                seq![("text"@, JsonV::Str(extracted_text(content))), ("type"@, JsonV::Str("text"@))],
            ),
        ],
    }
}

/// The kind and content of the event made from an assistant block.
pub open spec fn block_kind_and_text(block: JsonV) -> (Seq<char>, Seq<char>) {
    let t = text_or(str_member(block, "type"@), "message"@);
    if t == "text"@ {
        ("message"@, text_or(str_member(block, "text"@), Seq::empty()))
    } else if t == "thinking"@ || t == "reasoning"@ {
        (
            "thinking"@,
            text_or(
                str_of(
                    match member(block, "thinking"@) {
                        Some(v) => Some(v),
                        None => member(block, "text"@),
                    },
                ),
                Seq::empty(),
            ),
        )
    } else if t == "toolCall"@ {
        (
            "tool_call"@,
            pretty_text(
                JsonV::Object(
                    seq![
                        ("input"@, json_or_null(member(block, "arguments"@))),
                        ("toolName"@, json_or_null(member(block, "name"@))),
                    ],
                ),
            ),
        )
    } else {
        (t, pretty_text(block))
    }
}

/// The event made from block `index` of an assistant message.
pub open spec fn block_event(
    entry_id: Seq<char>,
    parent: Option<Seq<char>>,
    index: nat,
    block: JsonV,
    msg: JsonV,
    created_at: Option<Seq<char>>,
) -> EventV {
    let kt = block_kind_and_text(block);
    EventV {
        external_event_id: entry_id + ":"@ + decimal(index),
        parent_external_event_id: parent,
        role: "assistant"@,
        kind: kt.0,
        content: Some(kt.1),
        metadata: JsonV::Object(
            seq![
                ("block"@, block),
                ("entry_id"@, JsonV::Str(entry_id)),
                ("stopReason"@, json_or_null(member(msg, "stopReason"@))),
            ],
        ),
        created_at: created_at,
    }
}

/// The events made from the blocks of an assistant message.
pub open spec fn block_events(
    entry_id: Seq<char>,
    parent: Option<Seq<char>>,
    blocks: Seq<JsonV>,
    msg: JsonV,
    created_at: Option<Seq<char>>,
) -> Seq<EventV> {
    Seq::new(blocks.len(), |i: int| block_event(entry_id, parent, i as nat, blocks[i], msg, created_at))
}

/// The events imported from one session entry: a message gives one event
/// per role (one per block for the assistant), the listed system entries give
/// one system event, and other entries give none.
pub open spec fn entry_events(entry: JsonV) -> Seq<EventV> {
    let etype = text_or(str_member(entry, "type"@), "unknown"@);
    let id = text_or(str_member(entry, "id"@), "unknown"@);
    let parent = str_member(entry, "parentId"@);
    let ts = str_member(entry, "timestamp"@);
    if etype == "message"@ {
        let msg = json_or_null(member(entry, "message"@));
        let role = text_or(str_member(msg, "role"@), "unknown"@);
        let content = json_or_null(member(msg, "content"@));
        if role == "user"@ {
            seq![
                EventV {
                    external_event_id: id,
                    parent_external_event_id: parent,
                    role: "user"@,
                    kind: "message"@,
                    content: Some(extracted_text(content)),
                    metadata: entry_meta(entry),
                    created_at: ts,
                },
            ]
        } else if role == "assistant"@ {
            block_events(id, parent, assistant_blocks(content), msg, ts)
        } else if role == "toolResult"@ || role == "tool"@ {
            seq![
                EventV {
                    external_event_id: id,
                    parent_external_event_id: parent,
                    role: "tool"@,
                    kind: "tool_result"@,
                    content: Some(extracted_text(content)),
                    metadata: JsonV::Object(
                        seq![
                            ("entry"@, entry),
                            ("isError"@, json_or_null(member(msg, "isError"@))),
                            ("toolCallId"@, json_or_null(member(msg, "toolCallId"@))),
                            ("toolName"@, json_or_null(member(msg, "toolName"@))),
                        ],
                    ),
                    created_at: ts,
                },
            ]
        } else {
            seq![
                EventV {
                    external_event_id: id,
                    parent_external_event_id: parent,
                    role: role,
                    kind: "message"@,
                    content: Some(extracted_text(content)),
                    metadata: entry_meta(entry),
                    created_at: ts,
                },
            ]
        }
    } else if is_system_entry_type(etype) {
        seq![
            EventV {
                external_event_id: id,
                parent_external_event_id: parent,
                role: "system"@,
                kind: etype,
                content: Some(entry_summary(entry)),
                metadata: entry_meta(entry),
                created_at: ts,
            },
        ]
    } else {
        Seq::empty()
    }
}

/// The events of all entries, in order.
pub open spec fn entries_events(entries: Seq<JsonV>) -> Seq<EventV>
    decreases entries.len(),
{
    if entries.len() == 0 {
        Seq::empty()
    } else {
        entries_events(entries.drop_last()) + entry_events(entries.last())
    }
}

/// A copy of the document, or `null` when absent.
fn clone_or_null(o: Option<&Json>) -> (r: Json)
    ensures
        r.deep() == json_or_null(opt_deep(o)),
{
    match o {
        Some(v) => v.deep_clone(),
        None => Json::Null,
    }
}

/// An owned copy of an optional string.
fn opt_owned(o: Option<&str>) -> (r: Option<String>)
    ensures
        opt_text(r) == match o {
            Some(s) => Some(s@),
            None => None::<Seq<char>>,
        },
{
    match o {
        Some(s) => Some(owned(s)),
        None => None,
    }
}

/// A copy of an optional string.
fn clone_opt(o: &Option<String>) -> (r: Option<String>)
    ensures
        opt_text(r) == opt_text(*o),
{
    match o {
        Some(s) => Some(s.clone()),
        None => None,
    }
}

/// The kind and content of the event made from an assistant block.
fn block_kind_and_text_of(block: &Json) -> (r: (String, String))
    ensures
        (r.0@, r.1@) == block_kind_and_text(block.deep()),
{
    proof {
        reveal_strlit("");
    }
    let t = str_member_or(block, "type", "message");
    if str_eq(t.as_str(), "text") {
        (owned("message"), str_member_or(block, "text", ""))
    } else if str_eq(t.as_str(), "thinking") || str_eq(t.as_str(), "reasoning") {
        let chosen = match block.get("thinking") {
            Some(v) => Some(v),
            None => block.get("text"),
        };
        let text = match chosen {
            Some(v) => match v.as_str() {
                Some(s) => owned(s),
                None => owned(""),
            },
            None => owned(""),
        };
        (owned("thinking"), text)
    } else if str_eq(t.as_str(), "toolCall") {
        let payload = object2(
            "input",
            clone_or_null(block.get("arguments")),
            "toolName",
            clone_or_null(block.get("name")),
        );
        (owned("tool_call"), to_pretty(&payload))
    } else {
        let text = to_pretty(block);
        (t, text)
    }
}

/// The events made from the blocks of an assistant message.
fn assistant_events(
    entry_id: &str,
    parent: &Option<String>,
    blocks: &Vec<Json>,
    msg: &Json,
    created_at: &Option<String>,
) -> (r: Vec<EventImport>)
    ensures
        events_view(r@) == block_events(
            entry_id@,
            opt_text(*parent),
            blocks@.map_values(|b: Json| b.deep()),
            msg.deep(),
            opt_text(*created_at),
        ),
{
    let ghost target = block_events(
        entry_id@,
        opt_text(*parent),
        blocks@.map_values(|b: Json| b.deep()),
        msg.deep(),
        opt_text(*created_at),
    );
    let mut out: Vec<EventImport> = Vec::new();
    let mut i: usize = 0;
    while i < blocks.len()
        invariant
            i <= blocks.len(),
            target == block_events(
                entry_id@,
                opt_text(*parent),
                blocks@.map_values(|b: Json| b.deep()),
                msg.deep(),
                opt_text(*created_at),
            ),
            events_view(out@) == target.take(i as int),
        decreases blocks.len() - i,
    {
        let block = &blocks[i];
        let kt = block_kind_and_text_of(block);
        let index = usize_to_decimal(i);
        let id = concat3(entry_id, ":", index.as_str());
        let meta = object3(
            "block",
            block.deep_clone(),
            "entry_id",
            Json::Str(owned(entry_id)),
            "stopReason",
            clone_or_null(msg.get("stopReason")),
        );
        let e = EventImport {
            external_event_id: id,
            parent_external_event_id: clone_opt(parent),
            role: owned("assistant"),
            kind: kt.0,
            content: Some(kt.1),
            metadata: meta,
            created_at: clone_opt(created_at),
        };
        let ghost before = out@;
        out.push(e);
        proof {
            assert(events_view(out@) =~= events_view(before).push(e.event_view()));
            assert(e.event_view() == target[i as int]);
            assert(target.take(i + 1) =~= target.take(i as int).push(target[i as int]));
        }
        i = i + 1;
    }
    assert(target.take(blocks.len() as int) =~= target);
    out
}

/// The events imported from one session entry.
pub fn entry_to_events(entry: &Json) -> (r: Vec<EventImport>)
    ensures
        events_view(r@) == entry_events(entry.deep()),
{
    let etype = str_member_or(entry, "type", "unknown");
    let id = str_member_or(entry, "id", "unknown");
    let parent = opt_owned(str_member_of(entry, "parentId"));
    let ts = opt_owned(str_member_of(entry, "timestamp"));
    if str_eq(etype.as_str(), "message") {
        let null_msg = Json::Null;
        let msg: &Json = match entry.get("message") {
            Some(m) => m,
            None => &null_msg,
        };
        let role = str_member_or(msg, "role", "unknown");
        let null_content = Json::Null;
        let content: &Json = match msg.get("content") {
            Some(c) => c,
            None => &null_content,
        };
        if str_eq(role.as_str(), "user") {
            let e = EventImport {
                external_event_id: id,
                parent_external_event_id: parent,
                role: owned("user"),
                kind: owned("message"),
                content: Some(extract_text(content)),
                metadata: object1("entry", entry.deep_clone()),
                created_at: ts,
            };
            let r = vec![e];
            assert(events_view(r@) =~= seq![e.event_view()]);
            r
        } else if str_eq(role.as_str(), "assistant") {
            match content {
                Json::Array(blocks) => {
                    let r = assistant_events(id.as_str(), &parent, blocks, msg, &ts);
                    assert(blocks@.map_values(|b: Json| b.deep()) =~= assistant_blocks(content.deep()));
                    r
                },
                _ => {
                    let text = extract_text(content);
                    let block = object2(
                        "text",
                        Json::Str(text),
                        "type",
                        Json::Str(owned("text")),
                    );
                    let blocks = vec![block];
                    let r = assistant_events(id.as_str(), &parent, &blocks, msg, &ts);
                    assert(blocks@.map_values(|b: Json| b.deep()) =~= assistant_blocks(content.deep()));
                    r
                },
            }
        } else if str_eq(role.as_str(), "toolResult") || str_eq(role.as_str(), "tool") {
            let meta = object4(
                "entry",
                entry.deep_clone(),
                "isError",
                clone_or_null(msg.get("isError")),
                "toolCallId",
                clone_or_null(msg.get("toolCallId")),
                "toolName",
                clone_or_null(msg.get("toolName")),
            );
            let e = EventImport {
                external_event_id: id,
                parent_external_event_id: parent,
                role: owned("tool"),
                kind: owned("tool_result"),
                content: Some(extract_text(content)),
                metadata: meta,
                created_at: ts,
            };
            let r = vec![e];
            assert(events_view(r@) =~= seq![e.event_view()]);
            r
        } else {
            let e = EventImport {
                external_event_id: id,
                parent_external_event_id: parent,
                role: role,
                kind: owned("message"),
                content: Some(extract_text(content)),
                metadata: object1("entry", entry.deep_clone()),
                created_at: ts,
            };
            let r = vec![e];
            assert(events_view(r@) =~= seq![e.event_view()]);
            r
        }
    } else if str_eq(etype.as_str(), "model_change") || str_eq(etype.as_str(), "thinking_level_change")
        || str_eq(etype.as_str(), "label") || str_eq(etype.as_str(), "custom_message") || str_eq(
        etype.as_str(),
        "compaction",
    ) || str_eq(etype.as_str(), "branch_summary") {
        let e = EventImport {
            external_event_id: id,
            parent_external_event_id: parent,
            role: owned("system"),
            kind: etype,
            content: Some(summarize_entry(entry)),
            metadata: object1("entry", entry.deep_clone()),
            created_at: ts,
        };
        let r = vec![e];
        assert(events_view(r@) =~= seq![e.event_view()]);
        r
    } else {
        let r: Vec<EventImport> = Vec::new();
        assert(events_view(r@) =~= Seq::<EventV>::empty());
        r
    }
}

/// The vault events of a session's entries (everything but the header), in
/// order.
pub fn events_from_entries(entries: Vec<Json>) -> (r: Vec<EventImport>)
    ensures
        events_view(r@) == entries_events(entries@.map_values(|e: Json| e.deep())),
{
    let ghost all = entries@.map_values(|e: Json| e.deep());
    let mut out: Vec<EventImport> = Vec::new();
    let mut i: usize = 0;
    assert(all.take(0) =~= Seq::<JsonV>::empty());
    while i < entries.len()
        invariant
            i <= entries.len(),
            all == entries@.map_values(|e: Json| e.deep()),
            events_view(out@) == entries_events(all.take(i as int)),
        decreases entries.len() - i,
    {
        let evs = entry_to_events(&entries[i]);
        let ghost before = out@;
        let mut j: usize = 0;
        while j < evs.len()
            invariant
                j <= evs.len(),
                events_view(out@) == events_view(before) + events_view(evs@).take(j as int),
            decreases evs.len() - j,
        {
            let ghost prev = out@;
            out.push(evs[j].clone_event());
            assert(events_view(out@) =~= events_view(prev).push(evs@[j as int].event_view()));
            assert(events_view(evs@).take(j + 1) =~= events_view(evs@).take(j as int).push(
                evs@[j as int].event_view(),
            ));
            j = j + 1;
        }
        proof {
            let t = all.take(i + 1);
            assert(t.drop_last() =~= all.take(i as int));
            assert(t.last() == entries@[i as int].deep());
            assert(events_view(evs@).take(evs.len() as int) =~= events_view(evs@));
        }
        i = i + 1;
    }
    assert(all.take(entries.len() as int) =~= all);
    out
}

impl EventImport {
    /// A copy of the event.
    pub fn clone_event(&self) -> (r: EventImport)
        ensures
            r.event_view() == self.event_view(),
    {
        EventImport {
            external_event_id: self.external_event_id.clone(),
            parent_external_event_id: clone_opt(&self.parent_external_event_id),
            role: self.role.clone(),
            kind: self.kind.clone(),
            content: clone_opt(&self.content),
            metadata: self.metadata.deep_clone(),
            created_at: clone_opt(&self.created_at),
        }
    }
}

} // verus!
