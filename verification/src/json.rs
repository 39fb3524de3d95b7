//! JSON documents as the library reads and builds them, and the JSON text
//! handled through `serde_json`.

use vstd::prelude::*;
use crate::text::{append_str, owned, str_eq};

verus! {

/// A JSON document. Numbers keep the text under which `serde_json` prints
/// them; object members keep their order.
#[derive(Debug)]
pub enum Json {
    Null,
    Bool(bool),
    Number(String),
    Str(String),
    Array(Vec<Json>),
    Object(Vec<(String, Json)>),
}

/// The mathematical form of a JSON document.
pub enum JsonV {
    Null,
    Bool(bool),
    Number(Seq<char>),
    Str(Seq<char>),
    Array(Seq<JsonV>),
    Object(Seq<(Seq<char>, JsonV)>),
}

impl Json {
    /// The document as a mathematical value.
    pub open spec fn deep(self) -> JsonV
        decreases self,
    {
        match self {
            Json::Null => JsonV::Null,
            Json::Bool(b) => JsonV::Bool(b),
            Json::Number(n) => JsonV::Number(n@),
            Json::Str(s) => JsonV::Str(s@),
            Json::Array(items) => JsonV::Array(
                Seq::new(
                    items@.len(),
                    |i: int|
                        if 0 <= i < items@.len() {
                            items@[i].deep()
                        } else {
                            JsonV::Null
                        },
                ),
            ),
            Json::Object(members) => JsonV::Object(
                Seq::new(
                    members@.len(),
                    |i: int|
                        if 0 <= i < members@.len() {
                            (members@[i].0@, members@[i].1.deep())
                        } else {
                            (Seq::empty(), JsonV::Null)
                        },
                ),
            ),
        }
    }

    /// A copy of the document.
    pub fn deep_clone(&self) -> (r: Json)
        ensures
            r.deep() == self.deep(),
        decreases self,
    {
        match self {
            Json::Null => Json::Null,
            Json::Bool(b) => Json::Bool(*b),
            Json::Number(n) => Json::Number(n.clone()),
            Json::Str(s) => Json::Str(s.clone()),
            Json::Array(items) => {
                let mut out: Vec<Json> = Vec::new();
                let mut i: usize = 0;
                while i < items.len()
                    invariant
                        i <= items.len(),
                        *self == Json::Array(*items),
                        out@.len() == i,
                        forall|k: int|
                            0 <= k < i ==> (#[trigger] out@[k]).deep() == items@[k].deep(),
                    decreases items.len() - i,
                {
                    proof {
                        assert(decreases_to!(*self => (*self)->Array_0));
                    }
                    let c = items[i].deep_clone();
                    out.push(c);
                    i = i + 1;
                }
                let r = Json::Array(out);
                assert(r.deep() == self.deep()) by {
                    if let JsonV::Array(a) = r.deep() {
                        if let JsonV::Array(b) = self.deep() {
                            assert(a =~= b);
                        }
                    }
                }
                r
            },
            Json::Object(members) => {
                let mut out: Vec<(String, Json)> = Vec::new();
                let mut i: usize = 0;
                while i < members.len()
                    invariant
                        i <= members.len(),
                        *self == Json::Object(*members),
                        out@.len() == i,
                        forall|k: int|
                            0 <= k < i ==> (#[trigger] out@[k]).0@ == members@[k].0@
                                && out@[k].1.deep() == members@[k].1.deep(),
                    decreases members.len() - i,
                {
                    proof {
                        assert(decreases_to!(*self => (*self)->Object_0));
                    }
                    let key = members[i].0.clone();
                    let value = members[i].1.deep_clone();
                    out.push((key, value));
                    i = i + 1;
                }
                let r = Json::Object(out);
                assert(r.deep() == self.deep()) by {
                    if let JsonV::Object(a) = r.deep() {
                        if let JsonV::Object(b) = self.deep() {
                            assert(a =~= b);
                        }
                    }
                }
                r
            },
        }
    }

    /// The member `key` of an object (`serde_json::Value::get` with a string
    /// key); `None` for other documents and absent keys.
    pub fn get(&self, key: &str) -> (r: Option<&Json>)
        ensures
            match r {
                Some(v) => member(self.deep(), key@) == Some(v.deep()),
                None => member(self.deep(), key@) is None,
            },
    {
        match self {
            Json::Object(members) => {
                let ghost ms = match self.deep() {
                    JsonV::Object(ms) => ms,
                    _ => Seq::empty(),
                };
                let mut i: usize = 0;
                assert(ms.skip(0) =~= ms);
                while i < members.len()
                    invariant
                        i <= members.len(),
                        *self == Json::Object(*members),
                        ms == match self.deep() {
                            JsonV::Object(ms) => ms,
                            _ => Seq::empty(),
                        },
                        lookup(ms, key@) == lookup(ms.skip(i as int), key@),
                    decreases members.len() - i,
                {
                    assert(ms.skip(i as int)[0] == ms[i as int]);
                    if str_eq(members[i].0.as_str(), key) {
                        return Some(&members[i].1);
                    }
                    assert(ms.skip(i as int).skip(1) =~= ms.skip(i + 1));
                    i = i + 1;
                }
                None
            },
            _ => None,
        }
    }

    /// The text of a string document (`serde_json::Value::as_str`).
    pub fn as_str(&self) -> (r: Option<&str>)
        ensures
            match r {
                Some(s) => self.deep() == JsonV::Str(s@),
                None => !(self.deep() is Str),
            },
    {
        match self {
            Json::Str(s) => Some(s.as_str()),
            _ => None,
        }
    }
}

/// The value stored under `key` in a member list, the first such member.
pub open spec fn lookup(ms: Seq<(Seq<char>, JsonV)>, key: Seq<char>) -> Option<JsonV>
    decreases ms.len(),
{
    if ms.len() == 0 {
        None
    } else if ms[0].0 == key {
        Some(ms[0].1)
    } else {
        lookup(ms.skip(1), key)
    }
}

/// The member `key` of an object; `None` for other documents.
pub open spec fn member(v: JsonV, key: Seq<char>) -> Option<JsonV> {
    match v {
        JsonV::Object(ms) => lookup(ms, key),
        _ => None,
    }
}

/// The text of a string document.
pub open spec fn str_of(v: Option<JsonV>) -> Option<Seq<char>> {
    match v {
        Some(JsonV::Str(s)) => Some(s),
        _ => None,
    }
}

/// The string member `key` of an object.
pub open spec fn str_member(v: JsonV, key: Seq<char>) -> Option<Seq<char>> {
    str_of(member(v, key))
}

/// The string member `key` of `v`, if it is one.
pub fn str_member_of<'a>(v: &'a Json, key: &str) -> (r: Option<&'a str>)
    ensures
        match r {
            Some(s) => str_member(v.deep(), key@) == Some(s@),
            None => str_member(v.deep(), key@) is None,
        },
{
    match v.get(key) {
        Some(m) => m.as_str(),
        None => None,
    }
}

/// What `serde_json` prints for the string `s`: the JSON string literal,
/// quotes and escapes included.
pub uninterp spec fn json_quoted(s: Seq<char>) -> Seq<char>;

/// The JSON string literal of `s` (`serde_json::Value::String` displayed).
#[verifier::external_body]
pub(crate) fn quote_json_string(s: &str) -> (r: String)
    ensures
        r@ == json_quoted(s@),
{
    serde_json::Value::String(s.to_owned()).to_string()
}

/// The compact JSON text of a document: no spaces, members in order.
pub open spec fn compact(v: JsonV) -> Seq<char>
    decreases v,
{
    match v {
        JsonV::Null => "null"@,
        JsonV::Bool(b) => if b {
            "true"@
        } else {
            "false"@
        },
        JsonV::Number(n) => n,
        JsonV::Str(s) => json_quoted(s),
        JsonV::Array(items) => "["@ + compact_items(items) + "]"@,
        JsonV::Object(ms) => "{"@ + compact_members(ms) + "}"@,
    }
}

/// The compact texts of `items`, separated by commas.
pub open spec fn compact_items(items: Seq<JsonV>) -> Seq<char>
    decreases items,
{
    if items.len() == 0 {
        Seq::empty()
    } else if items.len() == 1 {
        compact(items[0])
    } else {
        proof {
            assert(decreases_to!(items => items.subrange(0, items.len() - 1)));
        }
        compact_items(items.subrange(0, items.len() - 1)) + ","@ + compact(items[items.len() - 1])
    }
}

/// The compact members `"key":value`, separated by commas.
pub open spec fn compact_members(ms: Seq<(Seq<char>, JsonV)>) -> Seq<char>
    decreases ms,
{
    if ms.len() == 0 {
        Seq::empty()
    } else if ms.len() == 1 {
        json_quoted(ms[0].0) + ":"@ + compact(ms[0].1)
    } else {
        proof {
            assert(decreases_to!(ms => ms.subrange(0, ms.len() - 1)));
        }
        compact_members(ms.subrange(0, ms.len() - 1)) + ","@ + json_quoted(ms[ms.len() - 1].0)
            + ":"@ + compact(ms[ms.len() - 1].1)
    }
}

impl Json {
    /// The compact JSON text of the document.
    pub fn to_compact(&self) -> (r: String)
        ensures
            r@ == compact(self.deep()),
        decreases self,
    {
        match self {
            Json::Null => owned("null"),
            Json::Bool(b) => if *b {
                owned("true")
            } else {
                owned("false")
            },
            Json::Number(n) => n.clone(),
            Json::Str(s) => quote_json_string(s.as_str()),
            Json::Array(items) => {
                let ghost dv = match self.deep() {
                    JsonV::Array(dv) => dv,
                    _ => Seq::empty(),
                };
                let mut out = owned("[");
                let mut i: usize = 0;
                while i < items.len()
                    invariant
                        i <= items.len(),
                        *self == Json::Array(*items),
                        dv == match self.deep() {
                            JsonV::Array(dv) => dv,
                            _ => Seq::empty(),
                        },
                        out@ == "["@ + compact_items(dv.take(i as int)),
                    decreases items.len() - i,
                {
                    proof {
                        assert(decreases_to!(*self => (*self)->Array_0));
                    }
                    let ghost before = out@;
                    if i > 0 {
                        append_str(&mut out, ",");
                    }
                    let part = items[i].to_compact();
                    append_str(&mut out, part.as_str());
                    proof {
                        let t = dv.take(i + 1);
                        assert(t[i as int] == items@[i as int].deep());
                        if i == 0 {
                            assert(dv.take(0) =~= Seq::<JsonV>::empty());
                            assert(out@ =~= "["@ + compact_items(t));
                        } else {
                            assert(t.subrange(0, t.len() - 1) =~= dv.take(i as int));
                            assert(out@ =~= "["@ + compact_items(t));
                        }
                    }
                    i = i + 1;
                }
                append_str(&mut out, "]");
                assert(dv.take(items.len() as int) =~= dv);
                out
            },
            Json::Object(members) => {
                let ghost dv = match self.deep() {
                    JsonV::Object(dv) => dv,
                    _ => Seq::empty(),
                };
                let mut out = owned("{");
                let mut i: usize = 0;
                while i < members.len()
                    invariant
                        i <= members.len(),
                        *self == Json::Object(*members),
                        dv == match self.deep() {
                            JsonV::Object(dv) => dv,
                            _ => Seq::empty(),
                        },
                        out@ == "{"@ + compact_members(dv.take(i as int)),
                    decreases members.len() - i,
                {
                    proof {
                        assert(decreases_to!(*self => (*self)->Object_0));
                    }
                    if i > 0 {
                        append_str(&mut out, ",");
                    }
                    let key = quote_json_string(members[i].0.as_str());
                    append_str(&mut out, key.as_str());
                    append_str(&mut out, ":");
                    let part = members[i].1.to_compact();
                    append_str(&mut out, part.as_str());
                    proof {
                        let t = dv.take(i + 1);
                        assert(t[i as int] == (members@[i as int].0@, members@[i as int].1.deep()));
                        if i == 0 {
                            assert(out@ =~= "{"@ + compact_members(t));
                        } else {
                            assert(t.subrange(0, t.len() - 1) =~= dv.take(i as int));
                            assert(out@ =~= "{"@ + compact_members(t));
                        }
                    }
                    i = i + 1;
                }
                append_str(&mut out, "}");
                assert(dv.take(members.len() as int) =~= dv);
                out
            },
        }
    }
}

/// What `serde_json` prints, pretty, for the JSON text `text`
/// (`serde_json::to_string_pretty` of the parsed value); `None` when `text`
/// is not JSON.
pub uninterp spec fn serde_pretty(text: Seq<char>) -> Option<Seq<char>>;

/// Re-prints JSON text in `serde_json`'s pretty layout (two-space indent).
#[verifier::external_body]
pub(crate) fn pretty_json_text(text: &str) -> (r: Option<String>)
    ensures
        match r {
            Some(p) => serde_pretty(text@) == Some(p@),
            None => serde_pretty(text@) is None,
        },
{
    match serde_json::from_str::<serde_json::Value>(text) {
        Ok(v) => serde_json::to_string_pretty(&v).ok(),
        Err(_) => None,
    }
}

/// The pretty text of a document, or empty text when it cannot be printed.
pub open spec fn pretty_text(v: JsonV) -> Seq<char> {
    match serde_pretty(compact(v)) {
        Some(p) => p,
        None => Seq::empty(),
    }
}

/// `serde_json::to_string_pretty` of the document, empty on failure.
pub fn to_pretty(v: &Json) -> (r: String)
    ensures
        r@ == pretty_text(v.deep()),
{
    let text = v.to_compact();
    match pretty_json_text(text.as_str()) {
        Some(p) => p,
        None => String::new(),
    }
}

/// What `serde_json::from_str::<Vec<String>>` gives for `text`: the strings of
/// a JSON array, or the text of the parse error.
pub uninterp spec fn serde_string_list(text: Seq<char>) -> Result<Seq<Seq<char>>, Seq<char>>;

/// Reads a JSON array of strings (`serde_json::from_str::<Vec<String>>`); the
/// error is the parse error's display text.
#[verifier::external_body]
pub(crate) fn parse_string_list(text: &str) -> (r: Result<Vec<String>, String>)
    ensures
        match r {
            Ok(items) => serde_string_list(text@) == Ok::<Seq<Seq<char>>, Seq<char>>(
                items@.map_values(|s: String| s@),
            ),
            Err(e) => serde_string_list(text@) == Err::<Seq<Seq<char>>, Seq<char>>(e@),
        },
{
    serde_json::from_str::<Vec<String>>(text).map_err(|e| e.to_string())
}

/// The document with NUL characters removed from every string value
/// (member names are kept).
pub open spec fn without_nul_strings(v: JsonV) -> JsonV
    decreases v,
{
    match v {
        JsonV::Str(s) => JsonV::Str(crate::text::without_nul(s)),
        JsonV::Array(items) => JsonV::Array(
            Seq::new(
                items.len(),
                |i: int|
                    if 0 <= i < items.len() {
                        without_nul_strings(items[i])
                    } else {
                        JsonV::Null
                    },
            ),
        ),
        JsonV::Object(ms) => JsonV::Object(
            Seq::new(
                ms.len(),
                |i: int|
                    if 0 <= i < ms.len() {
                        (ms[i].0, without_nul_strings(ms[i].1))
                    } else {
                        (Seq::empty(), JsonV::Null)
                    },
            ),
        ),
        _ => v,
    }
}

/// No string value of the document holds a NUL character.
pub open spec fn nul_free(v: JsonV) -> bool
    decreases v,
{
    match v {
        JsonV::Str(s) => !s.contains('\0'),
        JsonV::Array(items) => forall|i: int| 0 <= i < items.len() ==> nul_free(#[trigger] items[i]),
        JsonV::Object(ms) => forall|i: int| 0 <= i < ms.len() ==> nul_free(#[trigger] ms[i].1),
        _ => true,
    }
}

/// A document cleaned of NUL characters holds none in its string values, and
/// cleaning it again changes nothing (what Postgres refuses is gone).
pub proof fn lemma_nul_strings_removed(v: JsonV)
    ensures
        nul_free(without_nul_strings(v)),
        without_nul_strings(without_nul_strings(v)) == without_nul_strings(v),
    decreases v,
{
    match v {
        JsonV::Str(s) => {
            crate::text::lemma_without_char_law(s, '\0');
        },
        JsonV::Array(items) => {
            let w = without_nul_strings(v);
            if let JsonV::Array(wi) = w {
                assert forall|i: int| 0 <= i < wi.len() implies nul_free(#[trigger] wi[i])
                    && without_nul_strings(wi[i]) == wi[i] by {
                    lemma_nul_strings_removed(items[i]);
                }
                if let JsonV::Array(wwi) = without_nul_strings(w) {
                    assert(wwi =~= wi);
                }
            }
        },
        JsonV::Object(ms) => {
            let w = without_nul_strings(v);
            if let JsonV::Object(wm) = w {
                assert forall|i: int| 0 <= i < wm.len() implies nul_free(#[trigger] wm[i].1)
                    && without_nul_strings(wm[i].1) == wm[i].1 by {
                    lemma_nul_strings_removed(ms[i].1);
                }
                if let JsonV::Object(wwm) = without_nul_strings(w) {
                    assert(wwm =~= wm);
                }
            }
        },
        _ => {},
    }
}

/// A copy of the document without NUL characters in its string values.
fn nul_free_copy(v: &Json) -> (r: Json)
    ensures
        r.deep() == without_nul_strings(v.deep()),
    decreases v,
{
    match v {
        Json::Null => Json::Null,
        Json::Bool(b) => Json::Bool(*b),
        Json::Number(n) => Json::Number(n.clone()),
        Json::Str(s) => Json::Str(crate::text::strip_nul_chars(s.as_str())),
        Json::Array(items) => {
            let mut out: Vec<Json> = Vec::new();
            let mut i: usize = 0;
            while i < items.len()
                invariant
                    i <= items.len(),
                    *v == Json::Array(*items),
                    out@.len() == i,
                    forall|k: int|
                        0 <= k < i ==> (#[trigger] out@[k]).deep() == without_nul_strings(
                            items@[k].deep(),
                        ),
                decreases items.len() - i,
            {
                proof {
                    assert(decreases_to!(*v => (*v)->Array_0));
                }
                let c = nul_free_copy(&items[i]);
                out.push(c);
                i = i + 1;
            }
            let r = Json::Array(out);
            assert(r.deep() == without_nul_strings(v.deep())) by {
                if let JsonV::Array(a) = r.deep() {
                    if let JsonV::Array(b) = without_nul_strings(v.deep()) {
                        assert(a =~= b);
                    }
                }
            }
            r
        },
        Json::Object(members) => {
            let mut out: Vec<(String, Json)> = Vec::new();
            let mut i: usize = 0;
            while i < members.len()
                invariant
                    i <= members.len(),
                    *v == Json::Object(*members),
                    out@.len() == i,
                    forall|k: int|
                        0 <= k < i ==> (#[trigger] out@[k]).0@ == members@[k].0@ && out@[k].1.deep()
                            == without_nul_strings(members@[k].1.deep()),
                decreases members.len() - i,
            {
                proof {
                    assert(decreases_to!(*v => (*v)->Object_0));
                }
                let key = members[i].0.clone();
                let value = nul_free_copy(&members[i].1);
                out.push((key, value));
                i = i + 1;
            }
            let r = Json::Object(out);
            assert(r.deep() == without_nul_strings(v.deep())) by {
                if let JsonV::Object(a) = r.deep() {
                    if let JsonV::Object(b) = without_nul_strings(v.deep()) {
                        assert(a =~= b);
                    }
                }
            }
            r
        },
    }
}

/// Removes NUL characters from every string value of the document, which
/// Postgres text columns refuse.
pub fn strip_nuls_json(value: &mut Json)
    ensures
        final(value).deep() == without_nul_strings(old(value).deep()),
{
    let cleaned = nul_free_copy(value);
    *value = cleaned;
}

/// What a JSON text holds at a pointer, as far as the library reads it.
#[derive(Debug)]
pub enum Probe {
    /// The text is not JSON, or nothing is at the pointer.
    Missing,
    Text(String),
    Flag(bool),
    /// An array of this length.
    List(usize),
    /// A number, an object or `null`.
    Other,
}

/// The mathematical form of a probe.
pub enum ProbeV {
    Missing,
    Text(Seq<char>),
    Flag(bool),
    List(nat),
    Other,
}

impl Probe {
    pub open spec fn probe_view(self) -> ProbeV {
        match self {
            Probe::Missing => ProbeV::Missing,
            Probe::Text(s) => ProbeV::Text(s@),
            Probe::Flag(b) => ProbeV::Flag(b),
            Probe::List(n) => ProbeV::List(n as nat),
            Probe::Other => ProbeV::Other,
        }
    }
}

/// What `serde_json::from_str::<Value>(text)` holds at the JSON pointer
/// `pointer` (`Value::pointer`): missing when the text is not JSON or nothing
/// is there.
pub uninterp spec fn json_probe(text: Seq<char>, pointer: Seq<char>) -> ProbeV;

/// Parses `text` with `serde_json` and reports what is at `pointer`.
#[verifier::external_body]
pub(crate) fn probe_json(text: &str, pointer: &str) -> (r: Probe)
    ensures
        r.probe_view() == json_probe(text@, pointer@),
{
    match serde_json::from_str::<serde_json::Value>(text) {
        Err(_) => Probe::Missing,
        Ok(v) => match v.pointer(pointer) {
            None => Probe::Missing,
            Some(serde_json::Value::String(s)) => Probe::Text(s.clone()),
            Some(serde_json::Value::Bool(b)) => Probe::Flag(*b),
            Some(serde_json::Value::Array(a)) => Probe::List(a.len()),
            Some(_) => Probe::Other,
        },
    }
}

/// The values that `serde_json`'s stream deserializer reads one after the
/// other from the start of `content`, up to the first error or the end: for
/// each, its `type` member when that is a string, and the byte offset just
/// after it.
pub uninterp spec fn json_stream(content: Seq<char>) -> Seq<(Option<Seq<char>>, nat)>;

/// The text of an optional string.
pub open spec fn opt_seq(o: Option<String>) -> Option<Seq<char>> {
    match o {
        Some(s) => Some(s@),
        None => None,
    }
}

/// Reads the JSON values at the start of `content`
/// (`serde_json::Deserializer::from_str(..).into_iter::<Value>()`): for each
/// value read, its string `type` member and `byte_offset()` after it. Each
/// offset is at most the length of `content`; a value read from text ends
/// on an ASCII byte (`}`, `]`, `"`, a digit or a letter of a literal), so
/// each offset falls between two characters.
#[verifier::external_body]
pub(crate) fn json_stream_of(content: &str) -> (r: Vec<(Option<String>, usize)>)
    ensures
        r@.map_values(|p: (Option<String>, usize)| (opt_seq(p.0), p.1 as nat)) == json_stream(
            content@,
        ),
        forall|i: int|
            0 <= i < r@.len() ==> crate::text::is_char_boundary_of(content@, #[trigger] r@[i].1 as int),
{
    let mut stream = serde_json::Deserializer::from_str(content).into_iter::<serde_json::Value>();
    let mut out = Vec::new();
    while let Some(Ok(value)) = stream.next() {
        let kind = value.get("type").and_then(serde_json::Value::as_str).map(str::to_owned);
        out.push((kind, stream.byte_offset()));
    }
    out
}

/// The object with the single member `key`.
pub(crate) fn object1(key: &str, value: Json) -> (r: Json)
    ensures
        r.deep() == JsonV::Object(seq![(key@, value.deep())]),
{
    let ghost vd = value.deep();
    let r = Json::Object(vec![(owned(key), value)]);
    assert(r.deep() == JsonV::Object(seq![(key@, vd)])) by {
        if let JsonV::Object(ms) = r.deep() {
            assert(ms =~= seq![(key@, vd)]);
        }
    }
    r
}

/// The object with members `k1`, `k2`, in this order.
pub(crate) fn object2(k1: &str, v1: Json, k2: &str, v2: Json) -> (r: Json)
    ensures
        r.deep() == JsonV::Object(seq![(k1@, v1.deep()), (k2@, v2.deep())]),
{
    let ghost d1 = v1.deep();
    let ghost d2 = v2.deep();
    let r = Json::Object(vec![(owned(k1), v1), (owned(k2), v2)]);
    assert(r.deep() == JsonV::Object(seq![(k1@, d1), (k2@, d2)])) by {
        if let JsonV::Object(ms) = r.deep() {
            assert(ms =~= seq![(k1@, d1), (k2@, d2)]);
        }
    }
    r
}

/// The object with members `k1`, `k2`, `k3`, in this order.
pub(crate) fn object3(k1: &str, v1: Json, k2: &str, v2: Json, k3: &str, v3: Json) -> (r: Json)
    ensures
        r.deep() == JsonV::Object(seq![(k1@, v1.deep()), (k2@, v2.deep()), (k3@, v3.deep())]),
{
    let ghost d1 = v1.deep();
    let ghost d2 = v2.deep();
    let ghost d3 = v3.deep();
    let r = Json::Object(vec![(owned(k1), v1), (owned(k2), v2), (owned(k3), v3)]);
    assert(r.deep() == JsonV::Object(seq![(k1@, d1), (k2@, d2), (k3@, d3)])) by {
        if let JsonV::Object(ms) = r.deep() {
            assert(ms =~= seq![(k1@, d1), (k2@, d2), (k3@, d3)]);
        }
    }
    r
}

/// The object with members `k1` to `k4`, in this order.
pub(crate) fn object4(k1: &str, v1: Json, k2: &str, v2: Json, k3: &str, v3: Json, k4: &str, v4: Json) -> (r:
    Json)
    ensures
        r.deep() == JsonV::Object(
            seq![(k1@, v1.deep()), (k2@, v2.deep()), (k3@, v3.deep()), (k4@, v4.deep())],
        ),
{
    let ghost d1 = v1.deep();
    let ghost d2 = v2.deep();
    let ghost d3 = v3.deep();
    let ghost d4 = v4.deep();
    let r = Json::Object(vec![(owned(k1), v1), (owned(k2), v2), (owned(k3), v3), (owned(k4), v4)]);
    assert(r.deep() == JsonV::Object(seq![(k1@, d1), (k2@, d2), (k3@, d3), (k4@, d4)])) by {
        if let JsonV::Object(ms) = r.deep() {
            assert(ms =~= seq![(k1@, d1), (k2@, d2), (k3@, d3), (k4@, d4)]);
        }
    }
    r
}

/// The array of the two items `a`, `b`.
pub(crate) fn array2(a: Json, b: Json) -> (r: Json)
    ensures
        r.deep() == JsonV::Array(seq![a.deep(), b.deep()]),
{
    let ghost da = a.deep();
    let ghost db = b.deep();
    let r = Json::Array(vec![a, b]);
    assert(r.deep() == JsonV::Array(seq![da, db])) by {
        if let JsonV::Array(items) = r.deep() {
            assert(items =~= seq![da, db]);
        }
    }
    r
}

} // verus!
