//! The client's configuration file: a small TOML subset it writes and reads
//! back.

use vstd::prelude::*;
use crate::text::{
    split_parts, chars_of, concat3, concat_str, has_prefix, owned, split_once, split_once_chars, str_eq,
    string_from_chars, sub_chars, trim, trim_chars, trim_str,
};
use crate::fields::join_with;
use crate::vault::api::without_trailing_slashes;

verus! {

/// The client configuration.
#[derive(Debug, Clone, Default)]
pub struct Config {
    pub base_url: String,
    pub token: Option<String>,
    pub pi_thread_vault_data_dir: Option<String>,
    pub pi_thread_vault_default_visibility: Option<String>,
    pub pi_thread_vault_redaction_enabled: Option<bool>,
    pub pi_thread_vault_memory_enabled: Option<bool>,
    pub pi_thread_vault_memory_user_id: Option<String>,
}

/// `url` without trailing slashes.
pub fn normalize_base_url(url: &str) -> (r: String)
    ensures
        r@ == without_trailing_slashes(url@),
{
    let v = chars_of(url);
    let mut j: usize = v.len();
    assert(v@.take(v.len() as int) =~= v@);
    while j > 0 && v[j - 1] == '/'
        invariant
            j <= v.len(),
            v@ == url@,
            without_trailing_slashes(url@) == without_trailing_slashes(v@.take(j as int)),
        decreases j,
    {
        assert(v@.take(j as int).drop_last() =~= v@.take(j - 1));
        j = j - 1;
    }
    let head = sub_chars(v.as_slice(), 0, j);
    assert(head@ =~= v@.take(j as int));
    string_from_chars(head.as_slice())
}

/// `configured` for a non-empty value, `missing` otherwise.
pub fn present(value: Option<&str>) -> (r: &'static str)
    ensures
        r@ == if value matches Some(v) && v@.len() > 0 {
            "configured"@
        } else {
            "missing"@
        },
{
    match value {
        Some(v) => if v.is_empty() {
            "missing"
        } else {
            "configured"
        },
        None => "missing",
    }
}

/// The address of `path` on the server: the base URL without trailing
/// slashes, then the path with a leading slash.
pub open spec fn server_url(base_url: Seq<char>, path: Seq<char>) -> Seq<char> {
    without_trailing_slashes(base_url) + if has_prefix(path, "/"@) {
        path
    } else {
        "/"@ + path
    }
}

/// The address of `path` on the configured server.
pub fn url(base_url: &str, path: &str) -> (r: String)
    ensures
        r@ == server_url(base_url@, path@),
{
    let p = chars_of(path);
    proof {
        reveal_strlit("/");
    }
    let full = if p.len() > 0 && p[0] == '/' {
        assert(has_prefix(path@, "/"@)) by {
            assert(path@.take(1) =~= "/"@);
        }
        owned(path)
    } else {
        assert(!has_prefix(path@, "/"@)) by {
            if has_prefix(path@, "/"@) {
                assert(path@.take(1)[0] == '/');
            }
        }
        concat_str("/", path)
    };
    let base = normalize_base_url(base_url);
    concat_str(base.as_str(), full.as_str())
}

/// The configuration saved after logging in with a token.
pub fn config_for_token(base_url: &str, token: &str) -> (c: Config)
    ensures
        c.base_url@ == without_trailing_slashes(base_url@),
        c.token matches Some(t) && t@ == token@,
        c.pi_thread_vault_data_dir is None,
        c.pi_thread_vault_default_visibility matches Some(v) && v@ == "private"@,
        c.pi_thread_vault_redaction_enabled == Some(true),
        c.pi_thread_vault_memory_enabled == Some(false),
        c.pi_thread_vault_memory_user_id is None,
{
    Config {
        base_url: normalize_base_url(base_url),
        token: Some(owned(token)),
        pi_thread_vault_data_dir: None,
        pi_thread_vault_default_visibility: Some(owned("private")),
        pi_thread_vault_redaction_enabled: Some(true),
        pi_thread_vault_memory_enabled: Some(false),
        pi_thread_vault_memory_user_id: None,
    }
}

/// `s` with backslashes and double quotes escaped by a backslash.
pub open spec fn toml_escaped(s: Seq<char>) -> Seq<char>
    decreases s.len(),
{
    if s.len() == 0 {
        Seq::empty()
    } else {
        let c = s.last();
        toml_escaped(s.drop_last()) + if c == '\\' {
            seq!['\\', '\\']
        } else if c == '"' {
            seq!['\\', '"']
        } else {
            seq![c]
        }
    }
}

/// Escapes backslashes and double quotes for a TOML basic string.
pub fn toml_escape(value: &str) -> (r: String)
    ensures
        r@ == toml_escaped(value@),
{
    let v = chars_of(value);
    let mut out: Vec<char> = Vec::new();
    let mut i: usize = 0;
    assert(value@.take(0) =~= Seq::<char>::empty());
    while i < v.len()
        invariant
            i <= v.len(),
            v@ == value@,
            out@ == toml_escaped(value@.take(i as int)),
        decreases v.len() - i,
    {
        let c = v[i];
        if c == '\\' {
            out.push('\\');
            out.push('\\');
        } else if c == '"' {
            out.push('\\');
            out.push('"');
        } else {
            out.push(c);
        }
        proof {
            let t = value@.take(i + 1);
            assert(t.drop_last() =~= value@.take(i as int));
            assert(t.last() == c);
            assert(out@ =~= toml_escaped(t));
        }
        i = i + 1;
    }
    assert(value@.take(v.len() as int) =~= value@);
    string_from_chars(out.as_slice())
}

/// `s` with each non-overlapping `a b` pair, read left to right, replaced
/// by `r` (`str::replace` of a two-character pattern).
pub open spec fn replace_pair(s: Seq<char>, a: char, b: char, r: char) -> Seq<char>
    decreases s.len(),
{
    if s.len() == 0 {
        Seq::empty()
    } else if s.len() >= 2 && s[0] == a && s[1] == b {
        seq![r] + replace_pair(s.skip(2), a, b, r)
    } else {
        seq![s[0]] + replace_pair(s.skip(1), a, b, r)
    }
}

/// Replaces each `a b` pair of `s` by `r`.
fn replace_pair_of(s: &[char], a: char, b: char, r: char) -> (out: Vec<char>)
    ensures
        out@ == replace_pair(s@, a, b, r),
{
    let mut out: Vec<char> = Vec::new();
    let mut i: usize = 0;
    assert(s@.skip(0) =~= s@);
    while i < s.len()
        invariant
            i <= s.len(),
            replace_pair(s@, a, b, r) == out@ + replace_pair(s@.skip(i as int), a, b, r),
        decreases s.len() - i,
    {
        let ghost t = s@.skip(i as int);
        if i + 1 < s.len() && s[i] == a && s[i + 1] == b {
            proof {
                assert(t[0] == s@[i as int] && t[1] == s@[i + 1]);
                assert(t.skip(2) =~= s@.skip(i + 2));
            }
            out.push(r);
            i = i + 2;
        } else {
            proof {
                assert(t[0] == s@[i as int]);
                if t.len() >= 2 {
                    assert(t[1] == s@[i + 1]);
                }
                assert(t.skip(1) =~= s@.skip(i + 1));
            }
            out.push(s[i]);
            i = i + 1;
        }
        assert(replace_pair(s@, a, b, r) =~= out@ + replace_pair(s@.skip(i as int), a, b, r));
    }
    assert(out@ + replace_pair(s@.skip(i as int), a, b, r) =~= out@);
    out
}

/// The value of a `key = value` line: quotes around it removed and `\"`,
/// then `\\`, unescaped.
pub open spec fn unquoted(value: Seq<char>) -> Seq<char> {
    let v = trim(value);
    if v.len() >= 2 && v[0] == '"' && v[v.len() - 1] == '"' {
        replace_pair(replace_pair(v.subrange(1, v.len() - 1), '\\', '"', '"'), '\\', '\\', '\\')
    } else {
        v
    }
}

/// The value of a `key = value` line.
pub fn unquote_toml_value(value: &str) -> (r: String)
    ensures
        r@ == unquoted(value@),
{
    let v = chars_of(value);
    let t = trim_chars(v.as_slice());
    if t.len() >= 2 && t[0] == '"' && t[t.len() - 1] == '"' {
        let inner = sub_chars(t.as_slice(), 1, t.len() - 1);
        let once = replace_pair_of(inner.as_slice(), '\\', '"', '"');
        let twice = replace_pair_of(once.as_slice(), '\\', '\\', '\\');
        string_from_chars(twice.as_slice())
    } else {
        string_from_chars(t.as_slice())
    }
}

/// What the reader keeps of a file so far: the current section, and the
/// `key = value` pairs read, keys qualified by their section.
pub struct TomlState {
    pub section: Option<Seq<char>>,
    pub entries: Seq<(Seq<char>, Seq<char>)>,
}

/// A line with its comment removed, trimmed.
pub open spec fn toml_line_text(raw: Seq<char>) -> Seq<char> {
    trim(
        match split_once(raw, '#') {
            Some(p) => p.0,
            None => raw,
        },
    )
}

/// Reads one line: blank lines are skipped, `[name]` opens a section, and
/// `key = value` adds a pair; other lines are ignored.
pub open spec fn toml_line(st: TomlState, raw: Seq<char>) -> TomlState {
    let line = toml_line_text(raw);
    if line.len() == 0 {
        st
    } else if line.len() >= 2 && line[0] == '[' && line[line.len() - 1] == ']' {
        TomlState { section: Some(trim(line.subrange(1, line.len() - 1))), entries: st.entries }
    } else {
        match split_once(line, '=') {
            None => st,
            Some(p) => {
                let key = trim(p.0);
                let full = match st.section {
                    Some(sec) => sec + "."@ + key,
                    None => key,
                };
                TomlState { section: st.section, entries: st.entries.push((full, unquoted(trim(p.1)))) }
            },
        }
    }
}

/// The reader's state after the lines.
pub open spec fn toml_fold(lines: Seq<Seq<char>>) -> TomlState
    decreases lines.len(),
{
    if lines.len() == 0 {
        TomlState { section: None, entries: Seq::empty() }
    } else {
        toml_line(toml_fold(lines.drop_last()), lines.last())
    }
}

/// The `key = value` pairs of a configuration file, in order.
pub open spec fn toml_entries(content: Seq<char>) -> Seq<(Seq<char>, Seq<char>)> {
    toml_fold(split_parts(content, '\n')).entries
}

/// The value stored under `key`: the last pair with that key.
pub open spec fn toml_get(entries: Seq<(Seq<char>, Seq<char>)>, key: Seq<char>) -> Option<Seq<char>>
    decreases entries.len(),
{
    if entries.len() == 0 {
        None
    } else if entries.last().0 == key {
        Some(entries.last().1)
    } else {
        toml_get(entries.drop_last(), key)
    }
}

/// The pairs of a text as strings.
pub open spec fn pairs_view(v: Seq<(String, String)>) -> Seq<(Seq<char>, Seq<char>)> {
    v.map_values(|p: (String, String)| (p.0@, p.1@))
}

/// Reads one line into the state.
fn read_line(section: &mut Option<String>, entries: &mut Vec<(String, String)>, raw: &[char])
    ensures
        ({
            let st = toml_line(
                TomlState { section: crate::json::opt_seq(*old(section)), entries: pairs_view(old(entries)@) },
                raw@,
            );
            st.section == crate::json::opt_seq(*final(section)) && st.entries == pairs_view(final(entries)@)
        }),
{
    let before = match split_once_chars(raw, '#') {
        Some((b, _)) => b,
        None => sub_chars(raw, 0, raw.len()),
    };
    assert(before@ =~= match split_once(raw@, '#') {
        Some(p) => p.0,
        None => raw@,
    });
    let line = trim_chars(before.as_slice());
    if line.len() == 0 {
        return;
    }
    if line.len() >= 2 && line[0] == '[' && line[line.len() - 1] == ']' {
        let inner = sub_chars(line.as_slice(), 1, line.len() - 1);
        let name = trim_chars(inner.as_slice());
        *section = Some(string_from_chars(name.as_slice()));
        return;
    }
    match split_once_chars(line.as_slice(), '=') {
        None => {},
        Some((k, v)) => {
            let key = string_from_chars(trim_chars(k.as_slice()).as_slice());
            let full = match section {
                Some(sec) => concat3(sec.as_str(), ".", key.as_str()),
                None => key,
            };
            let value_text = string_from_chars(trim_chars(v.as_slice()).as_slice());
            let value = unquote_toml_value(value_text.as_str());
            let ghost prev = entries@;
            entries.push((full, value));
            assert(pairs_view(entries@) =~= pairs_view(prev).push((full@, value@)));
        },
    }
}

/// The `key = value` pairs of a configuration file, in order.
pub fn read_toml_like_values(content: &str) -> (r: Vec<(String, String)>)
    ensures
        pairs_view(r@) == toml_entries(content@),
{
    let mut section: Option<String> = None;
    let mut entries: Vec<(String, String)> = Vec::new();
    let mut rest = chars_of(content);
    let ghost mut done: Seq<Seq<char>> = Seq::empty();
    loop
        invariant
            split_parts(content@, '\n') == done + split_parts(rest@, '\n'),
            toml_fold(done).section == crate::json::opt_seq(section),
            toml_fold(done).entries == pairs_view(entries@),
        decreases rest@.len(),
    {
        match split_once_chars(rest.as_slice(), '\n') {
            Some((line, after)) => {
                proof {
                    crate::text::lemma_first_index(rest@, '\n');
                    assert(split_parts(rest@, '\n') == seq![line@] + split_parts(after@, '\n'));
                }
                read_line(&mut section, &mut entries, line.as_slice());
                proof {
                    assert(done.push(line@).drop_last() =~= done);
                    assert(done + split_parts(rest@, '\n') =~= done.push(line@) + split_parts(after@, '\n'));
                    done = done.push(line@);
                }
                rest = after;
            },
            None => {
                read_line(&mut section, &mut entries, rest.as_slice());
                proof {
                    assert(split_parts(rest@, '\n') == seq![rest@]);
                    assert(done.push(rest@).drop_last() =~= done);
                    assert(split_parts(content@, '\n') =~= done.push(rest@));
                }
                return entries;
            },
        }
    }
}

/// The value stored under `key`.
pub fn toml_value(entries: &Vec<(String, String)>, key: &str) -> (r: Option<String>)
    ensures
        crate::json::opt_seq(r) == toml_get(pairs_view(entries@), key@),
{
    let ghost pv = pairs_view(entries@);
    let mut j: usize = entries.len();
    assert(pv.take(pv.len() as int) =~= pv);
    while j > 0
        invariant
            j <= entries.len(),
            pv == pairs_view(entries@),
            toml_get(pv, key@) == toml_get(pv.take(j as int), key@),
        decreases j,
    {
        let t = &entries[j - 1];
        assert(pv.take(j as int).last() == (t.0@, t.1@));
        if str_eq(t.0.as_str(), key) {
            return Some(t.1.clone());
        }
        assert(pv.take(j as int).drop_last() =~= pv.take(j - 1));
        j = j - 1;
    }
    None
}

/// `true` or `false`, as `str::parse::<bool>` reads them.
pub open spec fn bool_text(v: Option<Seq<char>>) -> Option<bool> {
    match v {
        Some(t) => if t == "true"@ {
            Some(true)
        } else if t == "false"@ {
            Some(false)
        } else {
            None
        },
        None => None,
    }
}

fn bool_of(v: Option<String>) -> (r: Option<bool>)
    ensures
        r == bool_text(crate::json::opt_seq(v)),
{
    match v {
        Some(t) => if str_eq(t.as_str(), "true") {
            Some(true)
        } else if str_eq(t.as_str(), "false") {
            Some(false)
        } else {
            None
        },
        None => None,
    }
}

/// The configuration stored in a file's text.
pub open spec fn config_read(content: Seq<char>, c: Config) -> bool {
    let e = toml_entries(content);
    &&& c.base_url@ == match toml_get(e, "base_url"@) {
        Some(v) => v,
        None => Seq::empty(),
    }
    &&& crate::json::opt_seq(c.token) == toml_get(e, "token"@)
    &&& crate::json::opt_seq(c.pi_thread_vault_data_dir) == toml_get(e, "pi_thread_vault.data_dir"@)
    &&& crate::json::opt_seq(c.pi_thread_vault_default_visibility) == toml_get(
        e,
        "pi_thread_vault.default_visibility"@,
    )
    &&& c.pi_thread_vault_redaction_enabled == bool_text(
        toml_get(e, "pi_thread_vault.redaction_enabled"@),
    )
    &&& c.pi_thread_vault_memory_enabled == bool_text(toml_get(e, "pi_thread_vault.memory_enabled"@))
    &&& crate::json::opt_seq(c.pi_thread_vault_memory_user_id) == toml_get(
        e,
        "pi_thread_vault.memory_user_id"@,
    )
}

/// Reads the configuration from a file's text.
pub fn parse_toml_config(content: &str) -> (c: Config)
    ensures
        config_read(content@, c),
{
    proof {
        reveal_strlit("");
    }
    let values = read_toml_like_values(content);
    let base_url = match toml_value(&values, "base_url") {
        Some(v) => v,
        None => String::new(),
    };
    Config {
        base_url,
        token: toml_value(&values, "token"),
        pi_thread_vault_data_dir: toml_value(&values, "pi_thread_vault.data_dir"),
        pi_thread_vault_default_visibility: toml_value(&values, "pi_thread_vault.default_visibility"),
        pi_thread_vault_redaction_enabled: bool_of(toml_value(&values, "pi_thread_vault.redaction_enabled")),
        pi_thread_vault_memory_enabled: bool_of(toml_value(&values, "pi_thread_vault.memory_enabled")),
        pi_thread_vault_memory_user_id: toml_value(&values, "pi_thread_vault.memory_user_id"),
    }
}

/// The text of a boolean in the file.
pub open spec fn bool_word(b: bool) -> Seq<char> {
    if b {
        "true"@
    } else {
        "false"@
    }
}

/// The token written to the file: the configured one, else empty.
pub open spec fn written_token(c: Config) -> Seq<char> {
    match c.token {
        Some(t) => t@,
        None => Seq::empty(),
    }
}

/// The vault data directory written to the file.
pub open spec fn written_data_dir(c: Config, default_data_dir: Seq<char>) -> Seq<char> {
    match c.pi_thread_vault_data_dir {
        Some(d) => d@,
        None => default_data_dir,
    }
}

/// The default visibility written to the file.
pub open spec fn written_visibility(c: Config) -> Seq<char> {
    match c.pi_thread_vault_default_visibility {
        Some(v) => v@,
        None => "private"@,
    }
}

/// Whether redaction is written as enabled.
pub open spec fn written_redaction(c: Config) -> bool {
    match c.pi_thread_vault_redaction_enabled {
        Some(b) => b,
        None => true,
    }
}

/// Whether memory is written as enabled.
pub open spec fn written_memory(c: Config) -> bool {
    match c.pi_thread_vault_memory_enabled {
        Some(b) => b,
        None => false,
    }
}

/// The memory user written to the file.
pub open spec fn written_user(c: Config, default_user_id: Seq<char>) -> Seq<char> {
    match c.pi_thread_vault_memory_user_id {
        Some(u) => u@,
        None => default_user_id,
    }
}

/// A value between double quotes, escaped.
pub open spec fn quoted(v: Seq<char>) -> Seq<char> {
    seq!['"'] + toml_escaped(v) + seq!['"']
}

/// A `key = value` line.
pub open spec fn kv(key: Seq<char>, value: Seq<char>) -> Seq<char> {
    key + seq![' ', '=', ' '] + value
}

/// The lines of the file written for a configuration; absent values are
/// written with their defaults (`default_data_dir` and `default_user_id` are
/// the machine's defaults for the vault directory and the memory user).
pub open spec fn config_lines(c: Config, default_data_dir: Seq<char>, default_user_id: Seq<char>) -> Seq<
    Seq<char>,
> {
    seq![
        kv("base_url"@, quoted(c.base_url@)),
        kv("token"@, quoted(written_token(c))),
        Seq::empty(),
        "[pi_thread_vault]"@,
        kv("data_dir"@, quoted(written_data_dir(c, default_data_dir))),
        kv("default_visibility"@, quoted(written_visibility(c))),
        kv("redaction_enabled"@, bool_word(written_redaction(c))),
        kv("memory_enabled"@, bool_word(written_memory(c))),
        kv("memory_user_id"@, quoted(written_user(c, default_user_id))),
        Seq::empty(),
    ]
}

/// The file written for a configuration: its lines, each ended by a line
/// break.
pub open spec fn config_text(c: Config, default_data_dir: Seq<char>, default_user_id: Seq<char>) -> Seq<
    char,
> {
    join_with(config_lines(c, default_data_dir, default_user_id), seq!['\n'])
}

/// A `key = value` line.
fn kv_line(key: &str, value: &str) -> (r: String)
    ensures
        r@ == kv(key@, value@),
{
    proof {
        reveal_strlit(" = ");
        assert(" = "@ =~= seq![' ', '=', ' ']);
    }
    concat3(key, " = ", value)
}

/// A quoted, escaped value.
fn quoted_value(value: &str) -> (r: String)
    ensures
        r@ == quoted(value@),
{
    proof {
        reveal_strlit("\"");
        assert("\""@ =~= seq!['"']);
    }
    concat3("\"", toml_escape(value).as_str(), "\"")
}

/// The lines joined by line breaks.
fn join_lines(lines: &Vec<String>) -> (r: String)
    ensures
        r@ == join_with(lines@.map_values(|l: String| l@), seq!['\n']),
{
    let ghost all = lines@.map_values(|l: String| l@);
    let mut out = String::new();
    let mut i: usize = 0;
    assert(all.take(0) =~= Seq::<Seq<char>>::empty());
    proof {
        reveal_strlit("\n");
        assert("\n"@ =~= seq!['\n']);
    }
    while i < lines.len()
        invariant
            i <= lines.len(),
            all == lines@.map_values(|l: String| l@),
            "\n"@ == seq!['\n'],
            out@ == join_with(all.take(i as int), seq!['\n']),
        decreases lines.len() - i,
    {
        if i > 0 {
            crate::text::append_str(&mut out, "\n");
        }
        crate::text::append_str(&mut out, lines[i].as_str());
        proof {
            crate::fields::lemma_join_push(all.take(i as int), seq!['\n'], all[i as int]);
            assert(all.take(i + 1) =~= all.take(i as int).push(all[i as int]));
            if i == 0 {
                assert(out@ =~= all[i as int]);
            }
        }
        i = i + 1;
    }
    assert(all.take(lines.len() as int) =~= all);
    out
}

fn bool_word_of(b: bool) -> (r: &'static str)
    ensures
        r@ == bool_word(b),
{
    if b {
        "true"
    } else {
        "false"
    }
}

/// The file written for a configuration.
pub fn format_config_toml(config: &Config, default_data_dir: &str, default_user_id: &str) -> (r: String)
    ensures
        r@ == config_text(*config, default_data_dir@, default_user_id@),
{
    proof {
        reveal_strlit("");
    }
    let token = match &config.token {
        Some(t) => t.clone(),
        None => String::new(),
    };
    let data_dir = match &config.pi_thread_vault_data_dir {
        Some(d) => d.clone(),
        None => owned(default_data_dir),
    };
    let visibility = match &config.pi_thread_vault_default_visibility {
        Some(v) => v.clone(),
        None => owned("private"),
    };
    let redaction = match config.pi_thread_vault_redaction_enabled {
        Some(b) => b,
        None => true,
    };
    let memory = match config.pi_thread_vault_memory_enabled {
        Some(b) => b,
        None => false,
    };
    let user = match &config.pi_thread_vault_memory_user_id {
        Some(u) => u.clone(),
        None => owned(default_user_id),
    };
    let lines = vec![
        kv_line("base_url", quoted_value(config.base_url.as_str()).as_str()),
        kv_line("token", quoted_value(token.as_str()).as_str()),
        String::new(),
        owned("[pi_thread_vault]"),
        kv_line("data_dir", quoted_value(data_dir.as_str()).as_str()),
        kv_line("default_visibility", quoted_value(visibility.as_str()).as_str()),
        kv_line("redaction_enabled", bool_word_of(redaction)),
        kv_line("memory_enabled", bool_word_of(memory)),
        kv_line("memory_user_id", quoted_value(user.as_str()).as_str()),
        String::new(),
    ];
    assert(lines@.map_values(|l: String| l@) =~= config_lines(
        *config,
        default_data_dir@,
        default_user_id@,
    ));
    join_lines(&lines)
}

/// The memory user to act for: the one given on the command line, else the
/// one from the environment (`env_user_id`), else the configured one; `None`
/// leaves the choice to the machine's default user.
pub fn memory_user_id(config: &Config, explicit: Option<String>, env_user_id: Option<String>) -> (r:
    Option<String>)
    ensures
        crate::json::opt_seq(r) == match explicit {
            Some(e) => Some(e@),
            None => match env_user_id {
                Some(v) => Some(v@),
                None => crate::json::opt_seq(config.pi_thread_vault_memory_user_id),
            },
        },
{
    match explicit {
        Some(e) => Some(e),
        None => match env_user_id {
            Some(v) => Some(v),
            None => match &config.pi_thread_vault_memory_user_id {
                Some(u) => Some(u.clone()),
                None => None,
            },
        },
    }
}

/// The token to send: the configured one, else the one from the
/// environment (`env_token`).
pub fn configured_token(config: &Config, env_token: Option<String>) -> (r: Result<String, String>)
    ensures
        match config.token {
            Some(t) => r matches Ok(v) && v@ == t@,
            None => match env_token {
                Some(t) => r matches Ok(v) && v@ == t@,
                None => r matches Err(e) && e@
                    == "no token configured; run `jonaylor auth login --token ...`"@,
            },
        },
{
    match &config.token {
        Some(t) => Ok(t.clone()),
        None => match env_token {
            Some(t) => Ok(t),
            None => Err(owned("no token configured; run `jonaylor auth login --token ...`")),
        },
    }
}

/// Fills in the server address: when the file has none, the one from the
/// environment (`env_base_url`) or the public hub; trailing slashes are
/// dropped.
pub fn fill_config_defaults(config: &mut Config, env_base_url: Option<String>)
    ensures
        final(config).base_url@ == without_trailing_slashes(
            if old(config).base_url@.len() == 0 {
                match env_base_url {
                    Some(u) => u@,
                    None => "https://hub.jonaylor.com"@,
                }
            } else {
                old(config).base_url@
            },
        ),
        final(config).token == old(config).token,
        final(config).pi_thread_vault_data_dir == old(config).pi_thread_vault_data_dir,
        final(config).pi_thread_vault_default_visibility == old(config).pi_thread_vault_default_visibility,
        final(config).pi_thread_vault_redaction_enabled == old(config).pi_thread_vault_redaction_enabled,
        final(config).pi_thread_vault_memory_enabled == old(config).pi_thread_vault_memory_enabled,
        final(config).pi_thread_vault_memory_user_id == old(config).pi_thread_vault_memory_user_id,
{
    if config.base_url.as_str().is_empty() {
        config.base_url = match env_base_url {
            Some(u) => u,
            None => owned("https://hub.jonaylor.com"),
        };
    }
    config.base_url = normalize_base_url(config.base_url.as_str());
}

/// An environment value, unless it is blank.
pub fn nonblank_value(value: Option<String>) -> (r: Option<String>)
    ensures
        crate::json::opt_seq(r) == match value {
            Some(v) => if trim(v@).len() > 0 {
                Some(v@)
            } else {
                None
            },
            None => None,
        },
{
    match value {
        Some(v) => {
            let t = trim_str(v.as_str());
            if t.as_str().is_empty() {
                None
            } else {
                Some(v)
            }
        },
        None => None,
    }
}

/// The name a command such as `hostname` or `whoami` printed: its output
/// trimmed, unless that is empty.
pub fn command_name(output: &str) -> (r: Option<String>)
    ensures
        crate::json::opt_seq(r) == if trim(output@).len() > 0 {
            Some(trim(output@))
        } else {
            None
        },
{
    let t = trim_str(output);
    if t.as_str().is_empty() {
        None
    } else {
        Some(t)
    }
}

} // verus!
