//! Rendering rules of the vault's thread pages: which events are shown, how
//! tool activity is folded into "thought" groups, and the texts shown for
//! them.

use vstd::prelude::*;
use crate::fields::join_with;
use crate::json::{json_probe, json_stream, json_stream_of, opt_seq, probe_json, Probe, ProbeV};
use crate::clock::{rfc3339_seconds_between, seconds_between_rfc3339};
use crate::tally::{is_tally, tally, tally_view};
use crate::text::{char_at_byte, char_index_at_byte, chars_of, is_char_boundary_of, owned, str_eq, string_from_chars, sub_chars, trim, trim_chars, trim_start, trim_start_chars};

verus! {

/// One stored event as the thread page shows it.
#[derive(Debug)]
pub struct EventDetail {
    pub id: String,
    pub external_event_id: Option<String>,
    pub parent_external_event_id: Option<String>,
    pub role: String,
    pub kind: String,
    pub content: Option<String>,
    pub display_content: Option<String>,
    pub tool_label: Option<String>,
    pub metadata_json: String,
    pub created_at: Option<String>,
    pub inserted_at: String,
    pub timestamp_display: String,
    pub tool_result_content: Option<String>,
    pub tool_result_metadata_json: Option<String>,
    pub tool_result_is_error: bool,
}

/// A copy of an optional string, equal to it.
fn same_opt(o: &Option<String>) -> (r: Option<String>)
    ensures
        r == *o,
{
    match o {
        Some(s) => Some(s.clone()),
        None => None,
    }
}

impl Clone for EventDetail {
    fn clone(&self) -> (r: Self)
        ensures
            r == *self,
    {
        EventDetail {
            id: self.id.clone(),
            external_event_id: same_opt(&self.external_event_id),
            parent_external_event_id: same_opt(&self.parent_external_event_id),
            role: self.role.clone(),
            kind: self.kind.clone(),
            content: same_opt(&self.content),
            display_content: same_opt(&self.display_content),
            tool_label: same_opt(&self.tool_label),
            metadata_json: self.metadata_json.clone(),
            created_at: same_opt(&self.created_at),
            inserted_at: self.inserted_at.clone(),
            timestamp_display: self.timestamp_display.clone(),
            tool_result_content: same_opt(&self.tool_result_content),
            tool_result_metadata_json: same_opt(&self.tool_result_metadata_json),
            tool_result_is_error: self.tool_result_is_error,
        }
    }
}

/// A row of the thread page: one event, or a group of tool and thinking
/// events shown folded under its first event.
#[derive(Debug)]
pub struct EventView {
    pub event: EventDetail,
    pub is_thought_group: bool,
    pub thought_duration: Option<String>,
    pub thought_summary: Option<String>,
    pub children: Vec<EventDetail>,
}

/// A tool listed on the thread page, with how often it was used.
#[derive(Debug, Clone)]
pub struct ToolSummary {
    pub name: String,
    pub count: usize,
}

/// How a span of seconds is shown: whole seconds under a minute (at least
/// one), rounded minutes under an hour, rounded hours beyond.
pub open spec fn duration_text(seconds: int) -> Seq<char> {
    if seconds < 60 {
        crate::text::decimal(if seconds < 1 { 1 } else { seconds as nat }) + " second"@ + (if seconds
            == 1 {
            ""@
        } else {
            "s"@
        })
    } else if seconds < 3600 {
        let minutes = (seconds + 30) / 60;
        crate::text::decimal(minutes as nat) + " minute"@ + (if minutes == 1 {
            ""@
        } else {
            "s"@
        })
    } else {
        let hours = (seconds + 1800) / 3600;
        crate::text::decimal(hours as nat) + " hour"@ + (if hours == 1 {
            ""@
        } else {
            "s"@
        })
    }
}

/// Formats a span of seconds for the thought groups.
pub fn format_duration(seconds: i64) -> (r: String)
    requires
        seconds <= i64::MAX - 1800,
    ensures
        r@ == duration_text(seconds as int),
{
    if seconds < 60 {
        let shown: u64 = if seconds < 1 {
            1
        } else {
            seconds as u64
        };
        let n = crate::text::u64_to_decimal(shown);
        crate::text::concat3(n.as_str(), " second", if seconds == 1 { "" } else { "s" })
    } else if seconds < 3600 {
        let minutes = (seconds + 30) / 60;
        let n = crate::text::u64_to_decimal(minutes as u64);
        crate::text::concat3(n.as_str(), " minute", if minutes == 1 { "" } else { "s" })
    } else {
        let hours = (seconds + 1800) / 3600;
        let n = crate::text::u64_to_decimal(hours as u64);
        crate::text::concat3(n.as_str(), " hour", if hours == 1 { "" } else { "s" })
    }
}

/// The time an event is shown at: its creation time, or when it was stored.
pub open spec fn event_time(e: EventDetail) -> Seq<char> {
    match e.created_at {
        Some(t) => t@,
        None => e.inserted_at@,
    }
}

/// The time an event is shown at.
pub fn event_timestamp(event: &EventDetail) -> (r: Option<String>)
    ensures
        r matches Some(t) && t@ == event_time(*event),
{
    match &event.created_at {
        Some(t) => Some(t.clone()),
        None => Some(event.inserted_at.clone()),
    }
}

/// The `type` of a streamed value marks agent protocol output.
pub open spec fn is_protocol_type(t: Option<Seq<char>>) -> bool {
    match t {
        Some(k) => k == "thinking"@ || k == "reasoning"@ || k == "toolCall"@ || k == "toolResult"@,
        None => false,
    }
}

/// What follows byte `b` of `content`, leading whitespace removed, is empty
/// or starts another JSON object or array.
pub open spec fn continues_after(content: Seq<char>, b: int) -> bool {
    let rest = trim_start(content.skip(char_at_byte(content, b)));
    rest.len() == 0 || rest[0] == '{' || rest[0] == '['
}

/// Scans the streamed values from `i` on: each protocol value is consumed,
/// and the scan goes on while what follows could be another value.
pub open spec fn protocol_scan(
    content: Seq<char>,
    items: Seq<(Option<Seq<char>>, nat)>,
    i: nat,
    saw: bool,
    offset: nat,
) -> (bool, nat)
    decreases items.len() - i,
{
    if i >= items.len() {
        (saw, offset)
    } else if !is_protocol_type(items[i as int].0) {
        (saw, offset)
    } else if continues_after(content, items[i as int].1 as int) {
        protocol_scan(content, items, i + 1, true, items[i as int].1)
    } else {
        (true, items[i as int].1)
    }
}

/// The byte length of the agent protocol JSON (thinking blocks, tool calls
/// and results) that opens an assistant message, if it opens with any.
pub open spec fn protocol_prefix(content: Seq<char>) -> Option<nat> {
    let r = protocol_scan(content, json_stream(content), 0, false, 0);
    if r.0 {
        Some(r.1)
    } else {
        None
    }
}

/// The byte length of the protocol JSON that opens `content`, if any.
pub fn protocol_prefix_len(content: &str) -> (r: Option<usize>)
    ensures
        match r {
            Some(n) => protocol_prefix(content@) == Some(n as nat) && is_char_boundary_of(
                content@,
                n as int,
            ),
            None => protocol_prefix(content@) is None,
        },
{
    let items = json_stream_of(content);
    let ghost seqv = items@.map_values(|p: (Option<String>, usize)| (opt_seq(p.0), p.1 as nat));
    let v = chars_of(content);
    let mut i: usize = 0;
    let mut saw = false;
    let mut offset: usize = 0;
    let mut done = false;
    while i < items.len() && !done
        invariant
            i <= items.len(),
            v@ == content@,
            seqv == items@.map_values(|p: (Option<String>, usize)| (opt_seq(p.0), p.1 as nat)),
            seqv == json_stream(content@),
            forall|k: int|
                0 <= k < items@.len() ==> is_char_boundary_of(content@, #[trigger] items@[k].1 as int),
            !done ==> protocol_scan(content@, seqv, 0, false, 0) == protocol_scan(
                content@,
                seqv,
                i as nat,
                saw,
                offset as nat,
            ),
            done ==> protocol_scan(content@, seqv, 0, false, 0) == (saw, offset as nat),
            saw ==> is_char_boundary_of(content@, offset as int),
        decreases items.len() - i,
    {
        let is_protocol = match &items[i].0 {
            Some(k) => str_eq(k.as_str(), "thinking") || str_eq(k.as_str(), "reasoning") || str_eq(
                k.as_str(),
                "toolCall",
            ) || str_eq(k.as_str(), "toolResult"),
            None => false,
        };
        assert(seqv[i as int] == (opt_seq(items@[i as int].0), items@[i as int].1 as nat));
        if !is_protocol {
            done = true;
            i = i + 1;
        } else {
            saw = true;
            offset = items[i].1;
            let k = char_index_at_byte(v.as_slice(), offset);
            let after = sub_chars(v.as_slice(), k, v.len());
            assert(after@ =~= content@.skip(k as int));
            let rest = trim_start_chars(after.as_slice());
            if !(rest.len() == 0 || rest[0] == '{' || rest[0] == '[') {
                done = true;
            }
            i = i + 1;
        }
    }
    if saw {
        Some(offset)
    } else {
        None
    }
}

/// The label an event is counted under in a thought summary: its tool
/// label, or its kind, trimmed.
pub open spec fn summary_label(e: EventDetail) -> Seq<char> {
    trim(
        match e.tool_label {
            Some(l) => l@,
            None => e.kind@,
        },
    )
}

/// Labels that are counted: not empty and not `thinking`.
pub open spec fn counted_label(l: Seq<char>) -> bool {
    l.len() > 0 && l != "thinking"@
}

/// The counted labels of the events, in order.
pub open spec fn summary_labels(events: Seq<EventDetail>) -> Seq<Seq<char>>
    decreases events.len(),
{
    if events.len() == 0 {
        Seq::empty()
    } else {
        let prev = summary_labels(events.drop_last());
        let l = summary_label(events.last());
        if counted_label(l) {
            prev.push(l)
        } else {
            prev
        }
    }
}

/// A counted label as shown: the label, followed by `×` and the count when
/// it occurs more than once.
pub open spec fn tally_entry_text(e: (Seq<char>, nat)) -> Seq<char> {
    if e.1 == 1 {
        e.0
    } else {
        e.0 + " ×"@ + crate::text::decimal(e.1)
    }
}

/// The counted labels shown in label order, separated by commas.
pub open spec fn tally_text(t: Seq<(Seq<char>, nat)>) -> Seq<char> {
    join_with(t.map_values(|e: (Seq<char>, nat)| tally_entry_text(e)), ", "@)
}

/// `r` is the summary of a thought group made of `events`: `None` when no
/// label is counted, and otherwise the counted labels in label order.
pub open spec fn summary_is(events: Seq<EventDetail>, r: Option<Seq<char>>) -> bool {
    match r {
        None => summary_labels(events).len() == 0,
        Some(s) => exists|t: Seq<(Seq<char>, nat)>|
            is_tally(summary_labels(events), t) && t.len() > 0 && s == tally_text(t),
    }
}

/// Joins the tally entries as shown.
fn tally_text_of(t: &Vec<(Vec<char>, usize)>) -> (r: String)
    ensures
        r@ == tally_text(tally_view(t@)),
{
    let ghost parts = tally_view(t@).map_values(|e: (Seq<char>, nat)| tally_entry_text(e));
    let mut out: Vec<char> = Vec::new();
    let mut i: usize = 0;
    assert(parts.take(0) =~= Seq::<Seq<char>>::empty());
    while i < t.len()
        invariant
            i <= t.len(),
            parts == tally_view(t@).map_values(|e: (Seq<char>, nat)| tally_entry_text(e)),
            out@ == join_with(parts.take(i as int), ", "@),
        decreases t.len() - i,
    {
        let entry = string_from_chars(t[i].0.as_slice());
        let text = if t[i].1 == 1 {
            entry
        } else {
            let n = crate::text::usize_to_decimal(t[i].1);
            crate::text::concat3(entry.as_str(), " ×", n.as_str())
        };
        assert(text@ == parts[i as int]);
        let piece = chars_of(text.as_str());
        let ghost before = out@;
        if i > 0 {
            out.push(',');
            out.push(' ');
        }
        let mut j: usize = 0;
        let ghost mid = out@;
        while j < piece.len()
            invariant
                j <= piece.len(),
                out@ == mid + piece@.take(j as int),
            decreases piece.len() - j,
        {
            out.push(piece[j]);
            j = j + 1;
            assert(out@ =~= mid + piece@.take(j as int));
        }
        proof {
            reveal_strlit(", ");
            assert(piece@.take(piece.len() as int) =~= piece@);
            crate::fields::lemma_join_push(parts.take(i as int), ", "@, parts[i as int]);
            assert(parts.take(i + 1) =~= parts.take(i as int).push(parts[i as int]));
            if i > 0 {
                assert(out@ =~= before + ", "@ + parts[i as int]);
            } else {
                assert(out@ =~= parts[i as int]);
            }
        }
        i = i + 1;
    }
    assert(parts.take(t.len() as int) =~= parts);
    string_from_chars(out.as_slice())
}

/// The summary of a thought group: its counted labels in label order.
pub fn summarize_tool_labels(events: &[EventDetail]) -> (r: Option<String>)
    ensures
        summary_is(events@, crate::json::opt_seq(r)),
{
    let mut labels: Vec<Vec<char>> = Vec::new();
    let mut i: usize = 0;
    assert(events@.take(0) =~= Seq::<EventDetail>::empty());
    while i < events.len()
        invariant
            i <= events.len(),
            labels@.map_values(|v: Vec<char>| v@) == summary_labels(events@.take(i as int)),
        decreases events.len() - i,
    {
        let e = &events[i];
        let raw = match &e.tool_label {
            Some(l) => chars_of(l.as_str()),
            None => chars_of(e.kind.as_str()),
        };
        let label = trim_chars(raw.as_slice());
        let thinking: Vec<char> = vec!['t', 'h', 'i', 'n', 'k', 'i', 'n', 'g'];
        proof {
            reveal_strlit("thinking");
            assert(thinking@ =~= "thinking"@);
            assert(events@.take(i + 1).drop_last() =~= events@.take(i as int));
            assert(events@.take(i + 1).last() == events@[i as int]);
        }
        if label.len() > 0 && !crate::text::chars_eq(label.as_slice(), thinking.as_slice()) {
            let ghost before = labels@;
            labels.push(label);
            assert(labels@.map_values(|v: Vec<char>| v@) =~= before.map_values(|v: Vec<char>| v@).push(
                label@,
            ));
        }
        i = i + 1;
    }
    assert(events@.take(events.len() as int) =~= events@);
    let t = tally(&labels);
    if t.len() == 0 {
        proof {
            if labels.len() > 0 {
                let ghost lv = labels@.map_values(|v: Vec<char>| v@);
                assert(lv[0] == labels@[0]@);
                let k = choose|k: int| 0 <= k < tally_view(t@).len() && (#[trigger] tally_view(t@)[k]).0 == lv[0];
            }
        }
        None
    } else {
        let s = tally_text_of(&t);
        assert(is_tally(summary_labels(events@), tally_view(t@)));
        Some(s)
    }
}

/// The system prompt shown above a thread: the content of its first
/// `system_prompt` event, when that is not blank.
pub open spec fn system_prompt_of(events: Seq<EventDetail>) -> Option<Seq<char>>
    decreases events.len(),
{
    if events.len() == 0 {
        None
    } else if events[0].kind@ == "system_prompt"@ {
        match events[0].content {
            Some(c) => if trim(c@).len() > 0 {
                Some(c@)
            } else {
                None
            },
            None => None,
        }
    } else {
        system_prompt_of(events.skip(1))
    }
}

/// The system prompt of a thread.
pub fn extract_system_prompt(events: &[EventDetail]) -> (r: Option<String>)
    ensures
        crate::json::opt_seq(r) == system_prompt_of(events@),
{
    let mut i: usize = 0;
    assert(events@.skip(0) =~= events@);
    while i < events.len()
        invariant
            i <= events.len(),
            system_prompt_of(events@) == system_prompt_of(events@.skip(i as int)),
        decreases events.len() - i,
    {
        assert(events@.skip(i as int)[0] == events@[i as int]);
        if str_eq(events[i].kind.as_str(), "system_prompt") {
            return match &events[i].content {
                Some(c) => {
                    let t = crate::text::trim_str(c.as_str());
                    if t.as_str().is_empty() {
                        None
                    } else {
                        Some(c.clone())
                    }
                },
                None => None,
            };
        }
        assert(events@.skip(i as int).skip(1) =~= events@.skip(i + 1));
        i = i + 1;
    }
    None
}

/// The text a probe found, if it found a string.
pub open spec fn probe_text(p: ProbeV) -> Option<Seq<char>> {
    match p {
        ProbeV::Text(t) => Some(t),
        _ => None,
    }
}

/// The JSON pointer to member `key` of array element `i`.
pub open spec fn element_pointer(i: nat, key: Seq<char>) -> Seq<char> {
    "/"@ + crate::text::decimal(i) + "/"@ + key
}

/// The name of tool `i` of a tools snapshot: its `name`, or when that member
/// is missing its `toolName`, if a string.
pub open spec fn snapshot_tool_name(content: Seq<char>, i: nat) -> Option<Seq<char>> {
    match json_probe(content, element_pointer(i, "name"@)) {
        ProbeV::Missing => probe_text(json_probe(content, element_pointer(i, "toolName"@))),
        p => probe_text(p),
    }
}

/// A purely numeric tool name, an artifact of some snapshots (an index
/// recorded as a name) rather than a tool.
pub open spec fn numeric_name(t: Seq<char>) -> bool {
    t.len() > 0 && crate::text::all_digits(t)
}

/// The names of the first `n` tools of a snapshot, skipping unnamed ones and
/// numeric artifacts.
pub open spec fn snapshot_names(content: Seq<char>, n: nat) -> Seq<Seq<char>>
    decreases n,
{
    if n == 0 {
        Seq::empty()
    } else {
        let prev = snapshot_names(content, (n - 1) as nat);
        match snapshot_tool_name(content, (n - 1) as nat) {
            Some(t) => if numeric_name(t) {
                prev
            } else {
                prev.push(t)
            },
            None => prev,
        }
    }
}

/// Whether a tool name is a numeric artifact.
fn is_numeric_name(t: &str) -> (r: bool)
    ensures
        r == numeric_name(t@),
{
    let v = chars_of(t);
    if v.len() == 0 {
        return false;
    }
    let mut i: usize = 0;
    while i < v.len()
        invariant
            i <= v.len(),
            v@ == t@,
            forall|k: int| 0 <= k < i ==> crate::text::is_digit(#[trigger] v@[k]),
        decreases v.len() - i,
    {
        if !('0' <= v[i] && v[i] <= '9') {
            return false;
        }
        i = i + 1;
    }
    true
}

/// The tools listed by a tools snapshot: a JSON array whose elements carry
/// a name; `None` when it is no array or names no tool.
pub open spec fn snapshot_tools(content: Seq<char>) -> Option<Seq<Seq<char>>> {
    match json_probe(content, Seq::empty()) {
        ProbeV::List(n) => if snapshot_names(content, n).len() > 0 {
            Some(snapshot_names(content, n))
        } else {
            None
        },
        _ => None,
    }
}

/// The pointer to member `key` of array element `i`.
fn element_pointer_of(i: usize, key: &str) -> (r: String)
    ensures
        r@ == element_pointer(i as nat, key@),
{
    let n = crate::text::usize_to_decimal(i);
    let a = crate::text::concat3("/", n.as_str(), "/");
    crate::text::concat_str(a.as_str(), key)
}

/// The tools listed by a tools snapshot (all with count 0).
pub fn parse_tools_snapshot(content: &str) -> (r: Option<Vec<ToolSummary>>)
    ensures
        match r {
            Some(tools) => snapshot_tools(content@) == Some(
                tools@.map_values(|t: ToolSummary| t.name@),
            ) && forall|i: int| 0 <= i < tools@.len() ==> (#[trigger] tools@[i]).count == 0,
            None => snapshot_tools(content@) is None,
        },
{
    proof {
        reveal_strlit("");
        assert(""@ =~= Seq::<char>::empty());
    }
    let n = match probe_json(content, "") {
        Probe::List(n) => n,
        _ => return None,
    };
    let mut out: Vec<ToolSummary> = Vec::new();
    let mut i: usize = 0;
    while i < n
        invariant
            i <= n,
            json_probe(content@, Seq::empty()) == ProbeV::List(n as nat),
            out@.map_values(|t: ToolSummary| t.name@) == snapshot_names(content@, i as nat),
            forall|k: int| 0 <= k < out@.len() ==> (#[trigger] out@[k]).count == 0,
        decreases n - i,
    {
        let name_ptr = element_pointer_of(i, "name");
        let found = match probe_json(content, name_ptr.as_str()) {
            Probe::Missing => {
                let alt = element_pointer_of(i, "toolName");
                match probe_json(content, alt.as_str()) {
                    Probe::Text(t) => Some(t),
                    _ => None,
                }
            },
            Probe::Text(t) => Some(t),
            _ => None,
        };
        match found {
            Some(name) => if !is_numeric_name(name.as_str()) {
                let ghost before = out@;
                out.push(ToolSummary { name, count: 0 });
                assert(out@.map_values(|t: ToolSummary| t.name@) =~= before.map_values(
                    |t: ToolSummary| t.name@,
                ).push(name@));
            },
            None => {},
        }
        i = i + 1;
    }
    if out.len() == 0 {
        None
    } else {
        Some(out)
    }
}

/// The first `tools_snapshot` event with content, its content.
pub open spec fn snapshot_content(events: Seq<EventDetail>) -> Option<Seq<char>>
    decreases events.len(),
{
    if events.len() == 0 {
        None
    } else if events[0].kind@ == "tools_snapshot"@ {
        crate::json::opt_seq(events[0].content)
    } else {
        snapshot_content(events.skip(1))
    }
}

/// The tool labels of the events that have a non-blank one, in order.
pub open spec fn tool_labels(events: Seq<EventDetail>) -> Seq<Seq<char>>
    decreases events.len(),
{
    if events.len() == 0 {
        Seq::empty()
    } else {
        let prev = tool_labels(events.drop_last());
        match events.last().tool_label {
            Some(l) => if trim(l@).len() > 0 {
                prev.push(l@)
            } else {
                prev
            },
            None => prev,
        }
    }
}

/// The tools listed on a thread page: those of its first tools snapshot when
/// that lists any, and otherwise the tool labels of its events with how
/// often each occurs, in label order.
pub open spec fn available_tools_are(events: Seq<EventDetail>, r: Seq<(Seq<char>, nat)>) -> bool {
    match snapshot_content(events) {
        Some(c) if snapshot_tools(c) is Some => r == snapshot_tools(c).unwrap().map_values(
            |n: Seq<char>| (n, 0nat),
        ),
        _ => is_tally(tool_labels(events), r),
    }
}

/// The tools listed on a thread page.
pub fn extract_available_tools(events: &[EventDetail]) -> (r: Vec<ToolSummary>)
    ensures
        available_tools_are(events@, r@.map_values(|t: ToolSummary| (t.name@, t.count as nat))),
{
    let mut i: usize = 0;
    assert(events@.skip(0) =~= events@);
    let mut snapshot: Option<&String> = None;
    let mut done = false;
    while i < events.len() && !done
        invariant
            i <= events.len(),
            !done ==> snapshot_content(events@) == snapshot_content(events@.skip(i as int)),
            done ==> snapshot_content(events@) == crate::json::opt_seq(
                match snapshot {
                    Some(c) => Some(*c),
                    None => None,
                },
            ),
        decreases events.len() - i,
    {
        assert(events@.skip(i as int)[0] == events@[i as int]);
        if str_eq(events[i].kind.as_str(), "tools_snapshot") {
            snapshot = match &events[i].content {
                Some(c) => Some(c),
                None => None,
            };
            done = true;
        }
        assert(events@.skip(i as int).skip(1) =~= events@.skip(i + 1));
        i = i + 1;
    }
    if !done {
        snapshot = None;
    }
    match snapshot {
        Some(c) => match parse_tools_snapshot(c.as_str()) {
            Some(tools) => {
                assert(tools@.map_values(|t: ToolSummary| (t.name@, t.count as nat)) =~= snapshot_tools(
                    c@,
                ).unwrap().map_values(|n: Seq<char>| (n, 0nat)));
                return tools;
            },
            None => {},
        },
        None => {},
    }
    let mut labels: Vec<Vec<char>> = Vec::new();
    let mut k: usize = 0;
    assert(events@.take(0) =~= Seq::<EventDetail>::empty());
    while k < events.len()
        invariant
            k <= events.len(),
            labels@.map_values(|v: Vec<char>| v@) == tool_labels(events@.take(k as int)),
        decreases events.len() - k,
    {
        proof {
            assert(events@.take(k + 1).drop_last() =~= events@.take(k as int));
            assert(events@.take(k + 1).last() == events@[k as int]);
        }
        match &events[k].tool_label {
            Some(l) => {
                let t = crate::text::trim_str(l.as_str());
                if !t.as_str().is_empty() {
                    let ghost before = labels@;
                    labels.push(chars_of(l.as_str()));
                    assert(labels@.map_values(|v: Vec<char>| v@) =~= before.map_values(
                        |v: Vec<char>| v@,
                    ).push(l@));
                }
            },
            None => {},
        }
        k = k + 1;
    }
    assert(events@.take(events.len() as int) =~= events@);
    let t = tally(&labels);
    let mut out: Vec<ToolSummary> = Vec::new();
    let mut j: usize = 0;
    while j < t.len()
        invariant
            j <= t.len(),
            out@.len() == j,
            forall|q: int|
                0 <= q < j ==> (#[trigger] out@[q]).name@ == t@[q].0@ && out@[q].count == t@[q].1,
        decreases t.len() - j,
    {
        out.push(ToolSummary { name: string_from_chars(t[j].0.as_slice()), count: t[j].1 });
        j = j + 1;
    }
    assert(out@.map_values(|x: ToolSummary| (x.name@, x.count as nat)) =~= tally_view(t@));
    out
}

/// `content` without the protocol JSON that opens it.
pub open spec fn without_protocol(content: Seq<char>) -> Seq<char> {
    match protocol_prefix(content) {
        Some(n) => content.skip(char_at_byte(content, n as int)),
        None => content,
    }
}

/// Whether `content` opens with agent protocol JSON.
pub fn has_protocol_prefix(content: &str) -> (r: bool)
    ensures
        r == (protocol_prefix(content@) is Some),
{
    protocol_prefix_len(content).is_some()
}

/// `content` without the protocol JSON that opens it.
pub fn strip_protocol_prefix(content: &str) -> (r: String)
    ensures
        r@ == without_protocol(content@),
{
    match protocol_prefix_len(content) {
        Some(n) => {
            let v = chars_of(content);
            let k = char_index_at_byte(v.as_slice(), n);
            let rest = sub_chars(v.as_slice(), k, v.len());
            assert(rest@ =~= content@.skip(k as int));
            string_from_chars(rest.as_slice())
        },
        None => owned(content),
    }
}

/// The text shown for an event: an assistant message without its opening
/// protocol JSON and leading whitespace (nothing when that leaves only
/// whitespace); other content as stored.
pub open spec fn shown_content(role: Seq<char>, kind: Seq<char>, content: Option<Seq<char>>) -> Option<
    Seq<char>,
> {
    match content {
        None => None,
        Some(c) => if role == "assistant"@ && kind == "message"@ {
            if trim(without_protocol(c)).len() == 0 {
                None
            } else {
                Some(trim_start(without_protocol(c)))
            }
        } else {
            Some(c)
        },
    }
}

/// The text shown for an event.
pub fn display_content(role: &str, kind: &str, content: Option<&str>) -> (r: Option<String>)
    ensures
        opt_seq(r) == shown_content(
            role@,
            kind@,
            match content {
                Some(c) => Some(c@),
                None => None,
            },
        ),
{
    let content = match content {
        Some(c) => c,
        None => return None,
    };
    if str_eq(role, "assistant") && str_eq(kind, "message") {
        let stripped = strip_protocol_prefix(content);
        let v = chars_of(stripped.as_str());
        let t = trim_chars(v.as_slice());
        if t.len() == 0 {
            return None;
        }
        let ts = trim_start_chars(v.as_slice());
        return Some(string_from_chars(ts.as_slice()));
    }
    Some(owned(content))
}

/// Events folded into thought groups: tool activity, thinking, system
/// events, and assistant messages that hold nothing but protocol JSON.
pub open spec fn toolish(e: EventDetail) -> bool {
    let k = e.kind@;
    let r = e.role@;
    ||| k == "tool"@ || k == "tool_call"@ || k == "tool_result"@ || k == "thinking"@ || k == "reasoning"@
    ||| r == "tool"@ || r == "system"@
    ||| (r == "assistant"@ && k == "message"@ && (e.content matches Some(c) && protocol_prefix(c@)
        is Some) && (e.display_content matches Some(d) ==> d@.len() == 0))
}

/// Whether the event is folded into a thought group.
pub fn is_toolish_event(event: &EventDetail) -> (r: bool)
    ensures
        r == toolish(*event),
{
    let k = event.kind.as_str();
    let r = event.role.as_str();
    if str_eq(k, "tool") || str_eq(k, "tool_call") || str_eq(k, "tool_result") || str_eq(k, "thinking")
        || str_eq(k, "reasoning") {
        return true;
    }
    if str_eq(r, "tool") || str_eq(r, "system") {
        return true;
    }
    if str_eq(r, "assistant") && str_eq(k, "message") {
        let protocol = match &event.content {
            Some(c) => has_protocol_prefix(c.as_str()),
            None => false,
        };
        let blank = match &event.display_content {
            Some(d) => d.as_str().is_empty(),
            None => true,
        };
        return protocol && blank;
    }
    false
}

/// Events listed on the page: all but the system prompt and tools snapshots,
/// which are shown apart.
pub open spec fn listed(e: EventDetail) -> bool {
    e.kind@ != "system_prompt"@ && e.kind@ != "tools_snapshot"@
}

/// The listed events, in order.
pub open spec fn listed_events(events: Seq<EventDetail>) -> Seq<EventDetail> {
    events.filter(|e: EventDetail| listed(e))
}

/// The events listed on the page, in order.
pub fn visible_events(events: Vec<EventDetail>) -> (r: Vec<EventDetail>)
    ensures
        r@ == listed_events(events@),
{
    let mut out: Vec<EventDetail> = Vec::new();
    let mut i: usize = 0;
    assert(events@.take(0) =~= Seq::<EventDetail>::empty());
    while i < events.len()
        invariant
            i <= events.len(),
            out@ == events@.take(i as int).filter(|e: EventDetail| listed(e)),
        decreases events.len() - i,
    {
        let e = &events[i];
        let keep = !str_eq(e.kind.as_str(), "system_prompt") && !str_eq(e.kind.as_str(), "tools_snapshot");
        proof {
            let t = events@.take(i + 1);
            assert(t.drop_last() =~= events@.take(i as int));
            assert(t.last() == events@[i as int]);
            vstd::seq_lib::lemma_seq_take_len(events@, i + 1);
        }
        if keep {
            out.push(e.clone());
        }
        assert(out@ =~= events@.take(i + 1).filter(|e: EventDetail| listed(e))) by {
            reveal(Seq::filter);
        }
        i = i + 1;
    }
    assert(events@.take(events.len() as int) =~= events@);
    out
}

/// The thinking time shown for a thought group: the whole seconds between
/// the two timestamps (at least 0), when both are given and parse.
pub open spec fn duration_between(start: Option<Seq<char>>, end: Option<Seq<char>>) -> Option<
    Seq<char>,
> {
    match (start, end) {
        (Some(a), Some(b)) => match rfc3339_seconds_between(a, b) {
            Some(n) => Some(duration_text(if n < 0 { 0 } else { n })),
            None => None,
        },
        _ => None,
    }
}

/// The thinking time between two timestamps.
pub fn thought_duration(start: Option<&str>, end: Option<&str>) -> (r: Option<String>)
    ensures
        opt_seq(r) == duration_between(
            match start {
                Some(s) => Some(s@),
                None => None,
            },
            match end {
                Some(e) => Some(e@),
                None => None,
            },
        ),
{
    let start = match start {
        Some(s) => s,
        None => return None,
    };
    let end = match end {
        Some(e) => e,
        None => return None,
    };
    match seconds_between_rfc3339(start, end) {
        Some(n) => Some(format_duration(if n < 0 { 0 } else { n })),
        None => None,
    }
}

/// A row of the thread page, its summary aside.
pub struct RowV {
    pub event: EventDetail,
    pub group: bool,
    pub duration: Option<Seq<char>>,
    pub children: Seq<EventDetail>,
}

impl EventView {
    /// The row, its summary aside.
    pub open spec fn row(self) -> RowV {
        RowV {
            event: self.event,
            group: self.is_thought_group,
            duration: opt_seq(self.thought_duration),
            children: self.children@,
        }
    }
}

/// A row showing one event.
pub open spec fn single_row(e: EventDetail) -> RowV {
    RowV { event: e, group: false, duration: None, children: Seq::empty() }
}

/// The rows with the pending tool events closed into a group, if any.
pub open spec fn flush_rows(rows: Seq<RowV>, pending: Seq<EventDetail>, duration: Option<Seq<char>>) -> Seq<
    RowV,
> {
    if pending.len() == 0 {
        rows
    } else {
        rows.push(RowV { event: pending[0], group: true, duration: duration, children: pending })
    }
}

/// The state of the grouping pass: rows so far, tool events not yet shown,
/// and the time of the last user message.
pub struct GroupState {
    pub rows: Seq<RowV>,
    pub pending: Seq<EventDetail>,
    pub last_user: Option<Seq<char>>,
}

/// One step of the grouping pass: a user message closes the pending group
/// and restarts the clock; tool activity waits in the group; an assistant
/// message closes the group with the time since the last user message; any
/// other event closes it without a time.
pub open spec fn group_step(s: GroupState, e: EventDetail) -> GroupState {
    if e.role@ == "user"@ {
        GroupState {
            rows: flush_rows(s.rows, s.pending, None).push(single_row(e)),
            pending: Seq::empty(),
            last_user: Some(event_time(e)),
        }
    } else if toolish(e) {
        GroupState { rows: s.rows, pending: s.pending.push(e), last_user: s.last_user }
    } else if e.role@ == "assistant"@ {
        GroupState {
            rows: flush_rows(
                s.rows,
                s.pending,
                duration_between(s.last_user, Some(event_time(e))),
            ).push(single_row(e)),
            pending: Seq::empty(),
            last_user: s.last_user,
        }
    } else {
        GroupState {
            rows: flush_rows(s.rows, s.pending, None).push(single_row(e)),
            pending: Seq::empty(),
            last_user: s.last_user,
        }
    }
}

/// The state after the grouping pass has seen `events`.
pub open spec fn group_fold(events: Seq<EventDetail>) -> GroupState
    decreases events.len(),
{
    if events.len() == 0 {
        GroupState { rows: Seq::empty(), pending: Seq::empty(), last_user: None }
    } else {
        group_step(group_fold(events.drop_last()), events.last())
    }
}

/// The rows of the thread page for `events`.
pub open spec fn grouped(events: Seq<EventDetail>) -> Seq<RowV> {
    let s = group_fold(events);
    flush_rows(s.rows, s.pending, None)
}

/// Closes the pending tool events into a thought group.
pub fn flush_pending_tools(
    out: &mut Vec<EventView>,
    pending_tools: &mut Vec<EventDetail>,
    duration: Option<String>,
)
    ensures
        final(out)@.map_values(|v: EventView| v.row()) == flush_rows(
            old(out)@.map_values(|v: EventView| v.row()),
            old(pending_tools)@,
            opt_seq(duration),
        ),
        forall|i: int|
            0 <= i < old(out)@.len() ==> #[trigger] final(out)@[i] == old(out)@[i],
        old(pending_tools)@.len() > 0 ==> summary_is(
            old(pending_tools)@,
            opt_seq(final(out)@[old(out)@.len() as int].thought_summary),
        ),
        final(pending_tools)@.len() == 0,
{
    if pending_tools.len() == 0 {
        return;
    }
    let mut children: Vec<EventDetail> = Vec::new();
    std::mem::swap(&mut children, pending_tools);
    let thought_summary = summarize_tool_labels(children.as_slice());
    let first = children[0].clone();
    let ghost before = out@;
    out.push(
        EventView {
            event: first,
            is_thought_group: true,
            thought_duration: duration,
            thought_summary,
            children,
        },
    );
    assert(out@.map_values(|v: EventView| v.row()) =~= before.map_values(|v: EventView| v.row()).push(
        out@[before.len() as int].row(),
    ));
}

/// A row showing one event.
pub fn single_event(event: EventDetail) -> (r: EventView)
    ensures
        r.row() == single_row(event),
        r.thought_summary is None,
{
    EventView {
        event,
        is_thought_group: false,
        thought_duration: None,
        thought_summary: None,
        children: Vec::new(),
    }
}

/// The rows of a thread page: events in order, with runs of tool activity
/// folded into thought groups that carry a summary of their labels and, when
/// an assistant reply follows, the time since the last user message.
pub fn group_thought_events(events: Vec<EventDetail>) -> (r: Vec<EventView>)
    ensures
        r@.map_values(|v: EventView| v.row()) == grouped(events@),
        forall|i: int|
            0 <= i < r@.len() ==> if (#[trigger] r@[i]).is_thought_group {
                summary_is(r@[i].children@, opt_seq(r@[i].thought_summary))
            } else {
                r@[i].thought_summary is None
            },
{
    let mut out: Vec<EventView> = Vec::new();
    let mut pending: Vec<EventDetail> = Vec::new();
    let mut last_user_at: Option<String> = None;
    let mut rest = events;
    let ghost all = rest@;
    let n = rest.len();
    let mut i: usize = 0;
    assert(all.take(0) =~= Seq::<EventDetail>::empty());
    while rest.len() > 0
        invariant
            i <= all.len(),
            n == all.len(),
            rest@ == all.skip(i as int),
            group_fold(all.take(i as int)).rows == out@.map_values(|v: EventView| v.row()),
            group_fold(all.take(i as int)).pending == pending@,
            group_fold(all.take(i as int)).last_user == opt_seq(last_user_at),
            forall|k: int|
                0 <= k < out@.len() ==> if (#[trigger] out@[k]).is_thought_group {
                    summary_is(out@[k].children@, opt_seq(out@[k].thought_summary))
                } else {
                    out@[k].thought_summary is None
                },
        decreases rest@.len(),
    {
        let event = rest.remove(0);
        proof {
            assert(event == all[i as int]);
            assert(all.take(i + 1).drop_last() =~= all.take(i as int));
            assert(all.take(i + 1).last() == all[i as int]);
            assert(rest@ =~= all.skip(i + 1));
        }
        let ghost before = out@;
        let ghost pend = pending@;
        let is_user = str_eq(event.role.as_str(), "user");
        let is_tool = is_toolish_event(&event);
        if !is_user && is_tool {
            pending.push(event);
        } else {
            let duration = if is_user {
                None
            } else if str_eq(event.role.as_str(), "assistant") {
                let ts = event_timestamp(&event);
                match (&last_user_at, &ts) {
                    (Some(a), Some(b)) => thought_duration(Some(a.as_str()), Some(b.as_str())),
                    _ => None,
                }
            } else {
                None
            };
            flush_pending_tools(&mut out, &mut pending, duration);
            let ghost mid = out@;
            proof {
                assert(mid.map_values(|v: EventView| v.row()).len() == mid.len());
                assert(before.map_values(|v: EventView| v.row()).len() == before.len());
            }
            if is_user {
                last_user_at = event_timestamp(&event);
            }
            out.push(single_event(event));
            proof {
                assert forall|k: int| 0 <= k < out@.len() implies if (#[trigger] out@[k]).is_thought_group {
                    summary_is(out@[k].children@, opt_seq(out@[k].thought_summary))
                } else {
                    out@[k].thought_summary is None
                } by {
                    if k < mid.len() {
                        assert(out@[k] == mid[k]);
                        if k < before.len() {
                            assert(mid[k] == before[k]);
                        } else {
                            assert(pend.len() > 0);
                            assert(mid[k].row() == mid.map_values(|v: EventView| v.row())[k]);
                        }
                    }
                }
                assert(out@.map_values(|v: EventView| v.row()) =~= mid.map_values(|v: EventView| v.row()).push(single_row(event)));
            }
        }
        i = i + 1;
    }
    assert(all.take(all.len() as int) =~= all);
    let ghost before = out@;
    let ghost pend = pending@;
    flush_pending_tools(&mut out, &mut pending, None);
    proof {
        assert(out@.map_values(|v: EventView| v.row()).len() == out@.len());
        assert(before.map_values(|v: EventView| v.row()).len() == before.len());
        assert forall|k: int| 0 <= k < out@.len() implies if (#[trigger] out@[k]).is_thought_group {
            summary_is(out@[k].children@, opt_seq(out@[k].thought_summary))
        } else {
            out@[k].thought_summary is None
        } by {
            if k < before.len() {
                assert(out@[k] == before[k]);
            } else {
                assert(pend.len() > 0);
                assert(out@[k].row() == out@.map_values(|v: EventView| v.row())[k]);
            }
        }
    }
    out
}

/// The events a row stands for.
pub open spec fn row_events(r: RowV) -> Seq<EventDetail> {
    if r.group {
        r.children
    } else {
        seq![r.event]
    }
}

/// The events the rows stand for, in order.
pub open spec fn rows_events(rows: Seq<RowV>) -> Seq<EventDetail>
    decreases rows.len(),
{
    if rows.len() == 0 {
        Seq::empty()
    } else {
        rows_events(rows.drop_last()) + row_events(rows.last())
    }
}

proof fn lemma_flush_events(rows: Seq<RowV>, pending: Seq<EventDetail>, d: Option<Seq<char>>)
    ensures
        rows_events(flush_rows(rows, pending, d)) == rows_events(rows) + pending,
{
    if pending.len() == 0 {
        assert(rows_events(rows) + pending =~= rows_events(rows));
    } else {
        let r = rows.push(RowV { event: pending[0], group: true, duration: d, children: pending });
        assert(r.drop_last() =~= rows);
    }
}

proof fn lemma_fold_events(events: Seq<EventDetail>)
    ensures
        rows_events(group_fold(events).rows) + group_fold(events).pending == events,
        forall|i: int|
            0 <= i < group_fold(events).rows.len() ==> (#[trigger] group_fold(events).rows[i]).group
                ==> group_fold(events).rows[i].children.len() > 0,
    decreases events.len(),
{
    if events.len() > 0 {
        let prev = group_fold(events.drop_last());
        lemma_fold_events(events.drop_last());
        let e = events.last();
        let s = group_fold(events);
        assert(events.drop_last().push(e) =~= events);
        if e.role@ == "user"@ || !toolish(e) {
            let d = if e.role@ == "user"@ {
                None
            } else if e.role@ == "assistant"@ {
                duration_between(prev.last_user, Some(event_time(e)))
            } else {
                None
            };
            let flushed = flush_rows(prev.rows, prev.pending, d);
            lemma_flush_events(prev.rows, prev.pending, d);
            assert(s.rows == flushed.push(single_row(e)));
            assert(s.rows.drop_last() =~= flushed);
            assert(rows_events(s.rows) =~= rows_events(flushed) + seq![e]);
            assert(rows_events(s.rows) + s.pending =~= events);
            assert forall|i: int| 0 <= i < s.rows.len() implies (#[trigger] s.rows[i]).group
                ==> s.rows[i].children.len() > 0 by {
                if i < prev.rows.len() {
                    assert(s.rows[i] == prev.rows[i]);
                }
            }
        } else {
            assert(rows_events(s.rows) + s.pending =~= events);
        }
    }
}

/// Grouping shows every event exactly once and in order: the events of the
/// rows, read in order, are the events grouped; and no group is empty.
pub proof fn lemma_grouping_keeps_events(events: Seq<EventDetail>)
    ensures
        rows_events(grouped(events)) == events,
        forall|i: int|
            0 <= i < grouped(events).len() ==> (#[trigger] grouped(events)[i]).group
                ==> grouped(events)[i].children.len() > 0,
{
    let s = group_fold(events);
    lemma_fold_events(events);
    lemma_flush_events(s.rows, s.pending, None);
    assert forall|i: int| 0 <= i < grouped(events).len() implies (#[trigger] grouped(events)[i]).group
        ==> grouped(events)[i].children.len() > 0 by {
        if i < s.rows.len() {
            assert(grouped(events)[i] == s.rows[i]);
        }
    }
}

/// What `text` holds at the first of `pointers` where it holds anything.
pub open spec fn first_present(text: Seq<char>, pointers: Seq<Seq<char>>) -> ProbeV
    decreases pointers.len(),
{
    if pointers.len() == 0 {
        ProbeV::Missing
    } else {
        match json_probe(text, pointers[0]) {
            ProbeV::Missing => first_present(text, pointers.skip(1)),
            p => p,
        }
    }
}

/// Probes `text` at each pointer in turn until one holds something.
fn probe_first(text: &str, pointers: &Vec<&str>) -> (r: Probe)
    ensures
        r.probe_view() == first_present(text@, pointers@.map_values(|p: &str| p@)),
{
    let ghost ps = pointers@.map_values(|p: &str| p@);
    let mut i: usize = 0;
    assert(ps.skip(0) =~= ps);
    while i < pointers.len()
        invariant
            i <= pointers.len(),
            ps == pointers@.map_values(|p: &str| p@),
            first_present(text@, ps) == first_present(text@, ps.skip(i as int)),
        decreases pointers.len() - i,
    {
        assert(ps.skip(i as int)[0] == pointers@[i as int]@);
        let p = probe_json(text, pointers[i]);
        match p {
            Probe::Missing => {},
            _ => return p,
        }
        assert(ps.skip(i as int).skip(1) =~= ps.skip(i + 1));
        i = i + 1;
    }
    Probe::Missing
}

/// The pointers under which a tool call's id is looked up, in order.
pub open spec fn call_id_pointers() -> Seq<Seq<char>> {
    seq!["/toolCallId"@, "/block/toolCallId"@, "/entry/message/toolCallId"@, "/entry/toolCallId"@]
}

/// The tool call id recorded in an event's metadata.
pub open spec fn tool_call_id(metadata: Seq<char>) -> Option<Seq<char>> {
    probe_text(first_present(metadata, call_id_pointers()))
}

/// The tool call id recorded in an event's metadata.
pub fn extract_tool_call_id(metadata_json: &str) -> (r: Option<String>)
    ensures
        opt_seq(r) == tool_call_id(metadata_json@),
{
    let ptrs = vec!["/toolCallId", "/block/toolCallId", "/entry/message/toolCallId", "/entry/toolCallId"];
    assert(ptrs@.map_values(|p: &str| p@) =~= call_id_pointers());
    match probe_first(metadata_json, &ptrs) {
        Probe::Text(t) => Some(t),
        _ => None,
    }
}

/// Whether the metadata marks a failed tool result.
pub open spec fn marks_error(metadata: Seq<char>) -> bool {
    first_present(metadata, seq!["/isError"@, "/entry/isError"@]) == ProbeV::Flag(true)
}

/// Whether the metadata marks a failed tool result.
pub fn extract_is_error(metadata_json: &str) -> (r: bool)
    ensures
        r == marks_error(metadata_json@),
{
    let ptrs = vec!["/isError", "/entry/isError"];
    assert(ptrs@.map_values(|p: &str| p@) =~= seq!["/isError"@, "/entry/isError"@]);
    match probe_first(metadata_json, &ptrs) {
        Probe::Flag(b) => b,
        _ => false,
    }
}

/// The tool named in a tool event's JSON content (`toolName`, else `name`).
pub open spec fn content_tool_label(kind: Seq<char>, content: Option<Seq<char>>) -> Option<Seq<char>> {
    if kind == "tool_call"@ || kind == "tool"@ || kind == "tool_result"@ {
        match content {
            Some(c) => probe_text(first_present(c, seq!["/toolName"@, "/name"@])),
            None => None,
        }
    } else {
        None
    }
}

/// The tool named in a tool event's JSON content.
pub fn tool_label_from_content(kind: &str, content: Option<&str>) -> (r: Option<String>)
    ensures
        opt_seq(r) == content_tool_label(
            kind@,
            match content {
                Some(c) => Some(c@),
                None => None,
            },
        ),
{
    if !(str_eq(kind, "tool_call") || str_eq(kind, "tool") || str_eq(kind, "tool_result")) {
        return None;
    }
    let c = match content {
        Some(c) => c,
        None => return None,
    };
    let ptrs = vec!["/toolName", "/name"];
    assert(ptrs@.map_values(|p: &str| p@) =~= seq!["/toolName"@, "/name"@]);
    match probe_first(c, &ptrs) {
        Probe::Text(t) => Some(t),
        _ => None,
    }
}

/// The tool label of an event: the tool named in its metadata, or else in
/// its content; nothing when the metadata is not JSON.
pub open spec fn event_tool_label(kind: Seq<char>, content: Option<Seq<char>>, metadata: Seq<char>) -> Option<
    Seq<char>,
> {
    if json_probe(metadata, Seq::empty()) == ProbeV::Missing {
        None
    } else {
        match probe_text(
            first_present(metadata, seq!["/toolName"@, "/entry/message/toolName"@, "/block/name"@]),
        ) {
            Some(t) => Some(t),
            None => content_tool_label(kind, content),
        }
    }
}

/// The tool label of an event.
pub fn tool_label(kind: &str, content: Option<&str>, metadata_json: &str) -> (r: Option<String>)
    ensures
        opt_seq(r) == event_tool_label(
            kind@,
            match content {
                Some(c) => Some(c@),
                None => None,
            },
            metadata_json@,
        ),
{
    proof {
        reveal_strlit("");
        assert(""@ =~= Seq::<char>::empty());
    }
    match probe_json(metadata_json, "") {
        Probe::Missing => return None,
        _ => {},
    }
    let ptrs = vec!["/toolName", "/entry/message/toolName", "/block/name"];
    assert(ptrs@.map_values(|p: &str| p@) =~= seq!["/toolName"@, "/entry/message/toolName"@, "/block/name"@]);
    match probe_first(metadata_json, &ptrs) {
        Probe::Text(t) => Some(t),
        _ => tool_label_from_content(kind, content),
    }
}

/// Events that carry a tool's result.
pub open spec fn is_result_kind(e: EventDetail) -> bool {
    e.kind@ == "tool_result"@ || e.kind@ == "tool"@
}

/// `c` is the first tool call recorded under `id`.
pub open spec fn is_first_call(evs: Seq<EventDetail>, id: Seq<char>, c: int) -> bool {
    &&& 0 <= c < evs.len()
    &&& evs[c].kind@ == "tool_call"@
    &&& tool_call_id(evs[c].metadata_json@) == Some(id)
    &&& forall|j: int|
        0 <= j < c ==> !(evs[j].kind@ == "tool_call"@ && #[trigger] tool_call_id(evs[j].metadata_json@)
            == Some(id))
}

/// The call whose result event `i` holds: the first call with the id in the
/// result's metadata, when there is one other than `i`.
pub open spec fn result_target(evs: Seq<EventDetail>, i: int) -> Option<int> {
    if is_result_kind(evs[i]) {
        match tool_call_id(evs[i].metadata_json@) {
            Some(id) => if exists|c: int| is_first_call(evs, id, c) {
                let c = choose|c: int| is_first_call(evs, id, c);
                if c != i {
                    Some(c)
                } else {
                    None
                }
            } else {
                None
            },
            None => None,
        }
    } else {
        None
    }
}

/// The last result among the first `k` events that targets call `c`.
pub open spec fn last_result_before(evs: Seq<EventDetail>, c: int, k: int) -> Option<int>
    decreases k,
{
    if k <= 0 {
        None
    } else if result_target(evs, k - 1) == Some(c) {
        Some(k - 1)
    } else {
        last_result_before(evs, c, k - 1)
    }
}

/// Event `c` with the result of event `i` attached.
pub open spec fn with_result(call: EventDetail, result: EventDetail) -> EventDetail {
    EventDetail {
        tool_result_content: result.content,
        tool_result_metadata_json: Some(result.metadata_json),
        tool_result_is_error: marks_error(result.metadata_json@),
        ..call
    }
}

/// Event `c` after the results among the first `k` events are attached.
pub open spec fn merged_upto(evs: Seq<EventDetail>, c: int, k: int) -> EventDetail {
    match last_result_before(evs, c, k) {
        Some(i) => with_result(evs[c], evs[i]),
        None => evs[c],
    }
}

/// The events of the page after merging: each result that belongs to an
/// earlier-recorded call is attached to that call (the last such result
/// wins) and no longer listed on its own.
pub open spec fn merged_events(evs: Seq<EventDetail>, k: int) -> Seq<EventDetail>
    decreases k,
{
    if k <= 0 {
        Seq::empty()
    } else {
        let prev = merged_events(evs, k - 1);
        if result_target(evs, k - 1) is None {
            prev.push(merged_upto(evs, k - 1, evs.len() as int))
        } else {
            prev
        }
    }
}

/// The first call recorded under `id`.
fn find_first_call(events: &Vec<EventDetail>, ids: &Vec<Option<String>>, id: &str) -> (r: Option<usize>)
    requires
        ids@.len() == events@.len(),
        forall|k: int| 0 <= k < ids@.len() ==> opt_seq(#[trigger] ids@[k]) == tool_call_id(events@[k].metadata_json@),
    ensures
        match r {
            Some(c) => is_first_call(events@, id@, c as int),
            None => !exists|c: int| is_first_call(events@, id@, c),
        },
{
    let mut j: usize = 0;
    while j < events.len()
        invariant
            j <= events.len(),
            ids@.len() == events@.len(),
            forall|k: int| 0 <= k < ids@.len() ==> opt_seq(#[trigger] ids@[k]) == tool_call_id(events@[k].metadata_json@),
            forall|q: int|
                0 <= q < j ==> !(events@[q].kind@ == "tool_call"@ && #[trigger] tool_call_id(
                    events@[q].metadata_json@,
                ) == Some(id@)),
        decreases events.len() - j,
    {
        let same = match &ids[j] {
            Some(x) => str_eq(x.as_str(), id),
            None => false,
        };
        assert(opt_seq(ids@[j as int]) == tool_call_id(events@[j as int].metadata_json@));
        if str_eq(events[j].kind.as_str(), "tool_call") && same {
            return Some(j);
        }
        j = j + 1;
    }
    proof {
        if exists|c: int| is_first_call(events@, id@, c) {
            let c = choose|c: int| is_first_call(events@, id@, c);
            assert(tool_call_id(events@[c].metadata_json@) == Some(id@));
        }
    }
    None
}

/// The first call recorded under `id` is unique.
proof fn lemma_first_call_unique(evs: Seq<EventDetail>, id: Seq<char>, c: int)
    requires
        is_first_call(evs, id, c),
    ensures
        (choose|d: int| is_first_call(evs, id, d)) == c,
{
    let d = choose|d: int| is_first_call(evs, id, d);
    if d < c {
        assert(tool_call_id(evs[d].metadata_json@) == Some(id));
    } else if c < d {
        assert(tool_call_id(evs[c].metadata_json@) == Some(id));
    }
}

/// The call targeted by a result, from its id and the first call under it.
proof fn lemma_result_target(evs: Seq<EventDetail>, i: int, id: Seq<char>, c: int)
    requires
        0 <= i < evs.len(),
        is_result_kind(evs[i]),
        tool_call_id(evs[i].metadata_json@) == Some(id),
        is_first_call(evs, id, c),
    ensures
        result_target(evs, i) == if c != i {
            Some(c)
        } else {
            None
        },
{
    lemma_first_call_unique(evs, id, c);
}

/// Attaches each tool result to its call and drops the merged results.
pub fn merge_tool_results(events: Vec<EventDetail>) -> (r: Vec<EventDetail>)
    ensures
        r@ == merged_events(events@, events@.len() as int),
{
    let ghost evs = events@;
    let n = events.len();
    let mut ids: Vec<Option<String>> = Vec::new();
    let mut k: usize = 0;
    while k < n
        invariant
            k <= n == events@.len(),
            evs == events@,
            ids@.len() == k,
            forall|q: int| 0 <= q < k ==> opt_seq(#[trigger] ids@[q]) == tool_call_id(evs[q].metadata_json@),
        decreases n - k,
    {
        ids.push(extract_tool_call_id(events[k].metadata_json.as_str()));
        k = k + 1;
    }
    let mut updated: Vec<EventDetail> = Vec::new();
    let mut q: usize = 0;
    while q < n
        invariant
            q <= n == events@.len(),
            evs == events@,
            updated@.len() == q,
            forall|c: int| 0 <= c < q ==> #[trigger] updated@[c] == evs[c],
        decreases n - q,
    {
        updated.push(events[q].clone());
        q = q + 1;
    }
    let mut dropped: Vec<bool> = Vec::new();
    let mut i: usize = 0;
    while i < n
        invariant
            i <= n == events@.len(),
            evs == events@,
            ids@.len() == n,
            forall|q: int| 0 <= q < n ==> opt_seq(#[trigger] ids@[q]) == tool_call_id(evs[q].metadata_json@),
            updated@.len() == n,
            forall|c: int| 0 <= c < n ==> #[trigger] updated@[c] == merged_upto(evs, c, i as int),
            dropped@.len() == i,
            forall|q: int| 0 <= q < i ==> #[trigger] dropped@[q] == (result_target(evs, q) is Some),
        decreases n - i,
    {
        let mut target: Option<usize> = None;
        if str_eq(events[i].kind.as_str(), "tool_result") || str_eq(events[i].kind.as_str(), "tool") {
            match &ids[i] {
                Some(id) => {
                    assert(opt_seq(ids@[i as int]) == tool_call_id(evs[i as int].metadata_json@));
                    match find_first_call(&events, &ids, id.as_str()) {
                        Some(c) => {
                            proof {
                                assert(tool_call_id(evs[i as int].metadata_json@) == Some(id@));
                                lemma_result_target(evs, i as int, id@, c as int);
                            }
                            if c != i {
                                target = Some(c);
                                assert(result_target(evs, i as int) == Some(c as int));
                            } else {
                                assert(result_target(evs, i as int) is None);
                            }
                        },
                        None => {},
                    }
                },
                None => {
                    assert(opt_seq(ids@[i as int]) == tool_call_id(evs[i as int].metadata_json@));
                },
            }
        }
        assert(match target {
            Some(c) => result_target(evs, i as int) == Some(c as int),
            None => result_target(evs, i as int) is None,
        });
        match target {
            Some(c) => {
                let result = &events[i];
                let call = updated[c].clone();
                let merged = EventDetail {
                    tool_result_content: same_opt(&result.content),
                    tool_result_metadata_json: Some(result.metadata_json.clone()),
                    tool_result_is_error: extract_is_error(result.metadata_json.as_str()),
                    ..call
                };
                updated.set(c, merged);
                dropped.push(true);
            },
            None => {
                dropped.push(false);
            },
        }
        proof {
            assert forall|c: int| 0 <= c < n implies #[trigger] updated@[c] == merged_upto(evs, c, i + 1) by {
                if target == Some(c as usize) {
                    assert(last_result_before(evs, c, i + 1) == Some(i as int));
                } else {
                    assert(last_result_before(evs, c, i + 1) == last_result_before(evs, c, i as int));
                }
            }
        }
        i = i + 1;
    }
    let mut out: Vec<EventDetail> = Vec::new();
    let mut rest = updated;
    let mut j: usize = 0;
    while j < n
        invariant
            j <= n == events@.len(),
            evs == events@,
            rest@.len() == n - j,
            forall|c: int| 0 <= c < n - j ==> #[trigger] rest@[c] == merged_upto(evs, c + j, n as int),
            dropped@.len() == n,
            forall|q: int| 0 <= q < n ==> #[trigger] dropped@[q] == (result_target(evs, q) is Some),
            out@ == merged_events(evs, j as int),
        decreases n - j,
    {
        let e = rest.remove(0);
        if !dropped[j] {
            out.push(e);
        }
        proof {
            assert forall|c: int| 0 <= c < n - (j + 1) implies #[trigger] rest@[c] == merged_upto(evs, c + j + 1, n as int) by {
            }
        }
        j = j + 1;
    }
    out
}

} // verus!
