//! A configuration file written by the client reads back as the
//! configuration it was written from.

use vstd::prelude::*;
use crate::cli::config::{
    bool_text, bool_word, config_lines, config_read, config_text, kv, quoted, replace_pair,
    toml_entries, toml_escaped, toml_fold, toml_get, toml_line, toml_line_text, unquoted,
    written_data_dir, written_memory, written_redaction, written_token, written_user,
    written_visibility, Config, TomlState,
};
use crate::fields::lemma_split_join;
use crate::json::opt_seq;
use crate::text::{first_index, is_first, is_ws, lemma_first_index, split_once, trim, trim_end, trim_start};

verus! {

/// The escape of one character.
pub open spec fn escape_char(c: char) -> Seq<char> {
    if c == '\\' {
        seq!['\\', '\\']
    } else if c == '"' {
        seq!['\\', '"']
    } else {
        seq![c]
    }
}

/// Escaping distributes over concatenation.
proof fn lemma_escaped_concat(a: Seq<char>, b: Seq<char>)
    ensures
        toml_escaped(a + b) == toml_escaped(a) + toml_escaped(b),
    decreases b.len(),
{
    if b.len() == 0 {
        assert(a + b =~= a);
        assert(toml_escaped(a) + toml_escaped(b) =~= toml_escaped(a));
    } else {
        lemma_escaped_concat(a, b.drop_last());
        assert((a + b).drop_last() =~= a + b.drop_last());
        assert((a + b).last() == b.last());
        assert(toml_escaped(a + b) =~= toml_escaped(a) + toml_escaped(b));
    }
}

/// Escaping a text that starts with `c` starts with the escape of `c`.
proof fn lemma_escaped_cons(c: char, rest: Seq<char>)
    ensures
        toml_escaped(seq![c] + rest) == escape_char(c) + toml_escaped(rest),
{
    lemma_escaped_concat(seq![c], rest);
    assert(seq![c].drop_last() =~= Seq::<char>::empty());
    assert(toml_escaped(Seq::<char>::empty()) =~= Seq::<char>::empty());
    assert(seq![c].last() == c);
    assert(toml_escaped(seq![c]) =~= escape_char(c));
}

/// Escaping adds only backslashes.
proof fn lemma_escaped_lacks(v: Seq<char>, x: char)
    requires
        !v.contains(x),
        x != '\\',
    ensures
        !toml_escaped(v).contains(x),
    decreases v.len(),
{
    if v.len() > 0 {
        assert(!v.drop_last().contains(x)) by {
            if v.drop_last().contains(x) {
                let k = choose|k: int| 0 <= k < v.len() - 1 && v.drop_last()[k] == x;
                assert(v[k] == x);
            }
        }
        lemma_escaped_lacks(v.drop_last(), x);
        let e = toml_escaped(v);
        let p = toml_escaped(v.drop_last());
        assert(v.last() != x);
        if e.contains(x) {
            let k = choose|k: int| 0 <= k < e.len() && e[k] == x;
            if k < p.len() {
                assert(p[k] == x);
            }
        }
    }
}

/// Backslashes doubled, nothing else changed.
pub open spec fn backslashes_doubled(v: Seq<char>) -> Seq<char>
    decreases v.len(),
{
    if v.len() == 0 {
        Seq::empty()
    } else {
        (if v[0] == '\\' {
            seq!['\\', '\\']
        } else {
            seq![v[0]]
        }) + backslashes_doubled(v.skip(1))
    }
}

/// Unescaping the quotes of an escaped text leaves its backslashes doubled.
proof fn lemma_unescape_quotes(v: Seq<char>)
    ensures
        replace_pair(toml_escaped(v), '\\', '"', '"') == backslashes_doubled(v),
    decreases v.len(),
{
    if v.len() == 0 {
        assert(toml_escaped(v) =~= Seq::<char>::empty());
    } else {
        let c = v[0];
        let rest = v.skip(1);
        assert(v =~= seq![c] + rest);
        lemma_escaped_cons(c, rest);
        lemma_unescape_quotes(rest);
        let er = toml_escaped(rest);
        let e = toml_escaped(v);
        assert(e == escape_char(c) + er);
        if er.len() > 0 {
            assert(rest =~= seq![rest[0]] + rest.skip(1));
            lemma_escaped_cons(rest[0], rest.skip(1));
            assert(er[0] == escape_char(rest[0])[0]);
        }
        if c == '\\' {
            assert(e.skip(1) =~= seq!['\\'] + er);
            assert(e.skip(1).skip(1) =~= er);
            assert(e.skip(1)[0] == '\\');
            if er.len() > 0 {
                assert(e.skip(1)[1] == er[0]);
            }
            assert(replace_pair(e, '\\', '"', '"') =~= seq!['\\'] + replace_pair(e.skip(1), '\\', '"', '"'));
            assert(replace_pair(e.skip(1), '\\', '"', '"') =~= seq!['\\'] + replace_pair(er, '\\', '"', '"'));
        } else if c == '"' {
            assert(e.skip(2) =~= er);
        } else {
            assert(e.skip(1) =~= er);
        }
        assert(replace_pair(e, '\\', '"', '"') =~= backslashes_doubled(v));
    }
}

/// Undoubling the backslashes gives the text back.
proof fn lemma_unescape_backslashes(v: Seq<char>)
    ensures
        replace_pair(backslashes_doubled(v), '\\', '\\', '\\') == v,
    decreases v.len(),
{
    if v.len() > 0 {
        let rest = v.skip(1);
        lemma_unescape_backslashes(rest);
        let d = backslashes_doubled(v);
        let dr = backslashes_doubled(rest);
        if v[0] == '\\' {
            assert(d.skip(2) =~= dr);
        } else {
            assert(d.skip(1) =~= dr);
        }
        assert(replace_pair(d, '\\', '\\', '\\') =~= v);
    }
}

/// A quoted, escaped value reads back as the value.
pub proof fn lemma_unquote_escaped(v: Seq<char>)
    ensures
        unquoted(seq!['"'] + toml_escaped(v) + seq!['"']) == v,
{
    let q = seq!['"'] + toml_escaped(v) + seq!['"'];
    assert(trim_start(q) == q);
    assert(trim_end(q) == q);
    assert(q.subrange(1, q.len() - 1) =~= toml_escaped(v));
    lemma_unescape_quotes(v);
    lemma_unescape_backslashes(v);
}

/// `a + b` lacks `x` when both parts do.
proof fn lemma_concat_lacks(a: Seq<char>, b: Seq<char>, x: char)
    requires
        !a.contains(x),
        !b.contains(x),
    ensures
        !(a + b).contains(x),
{
    if (a + b).contains(x) {
        let k = choose|k: int| 0 <= k < (a + b).len() && (a + b)[k] == x;
        if k < a.len() {
            assert(a[k] == x);
        } else {
            assert(b[k - a.len()] == x);
        }
    }
}

/// Text with non-whitespace at both ends is its own trim.
proof fn lemma_trim_noop(s: Seq<char>)
    requires
        s.len() > 0,
        !is_ws(s[0]),
        !is_ws(s.last()),
    ensures
        trim(s) == s,
{
    assert(trim_start(s) == s);
    assert(trim_end(s) == s);
}

/// The entry key of `key` under the current section.
pub open spec fn qualified(section: Option<Seq<char>>, key: Seq<char>) -> Seq<char> {
    match section {
        Some(sec) => sec + "."@ + key,
        None => key,
    }
}

/// A `key = value` line adds the pair, the key qualified by the section.
proof fn lemma_kv_line(st: TomlState, key: Seq<char>, vt: Seq<char>)
    requires
        key.len() > 0,
        !is_ws(key[0]),
        key[0] != '[',
        !is_ws(key.last()),
        !key.contains('='),
        !key.contains('#'),
        vt.len() > 0,
        !is_ws(vt[0]),
        !is_ws(vt.last()),
        !vt.contains('#'),
    ensures
        toml_line(st, key + seq![' ', '=', ' '] + vt) == (TomlState {
            section: st.section,
            entries: st.entries.push((qualified(st.section, key), unquoted(vt))),
        }),
{
    let mid = seq![' ', '=', ' '];
    let raw = key + mid + vt;
    assert(!mid.contains('#'));
    lemma_concat_lacks(key, mid, '#');
    lemma_concat_lacks(key + mid, vt, '#');
    assert(split_once(raw, '#') is None);
    assert(raw[0] == key[0]);
    assert(raw.last() == vt.last());
    lemma_trim_noop(raw);
    assert(toml_line_text(raw) == raw);
    let i: int = key.len() + 1int;
    assert(raw[i] == '=');
    assert(is_first(raw, '=', i)) by {
        assert forall|k: int| 0 <= k < i implies raw[k] != '=' by {
            if k < key.len() {
                assert(raw[k] == key[k]);
            }
        }
    }
    lemma_first_index(raw, '=');
    assert(first_index(raw, '=') == i);
    let p0 = raw.take(i);
    let p1 = raw.skip(i + 1);
    assert(p0 =~= key + seq![' ']);
    assert(p1 =~= seq![' '] + vt);
    assert(trim_start(p0) == p0);
    assert(p0.take(p0.len() - 1) =~= key);
    assert(trim_end(key) == key);
    assert(trim(p0) == key);
    assert(p1.skip(1) =~= vt);
    assert(trim_start(vt) == vt);
    assert(trim_start(p1) == vt);
    assert(trim_end(vt) == vt);
    assert(trim(p1) == vt);
    assert(trim(vt) == vt);
}

/// The section line of the vault opens that section.
proof fn lemma_section_line(st: TomlState)
    ensures
        toml_line(st, "[pi_thread_vault]"@) == (TomlState {
            section: Some("pi_thread_vault"@),
            entries: st.entries,
        }),
{
    reveal_strlit("[pi_thread_vault]");
    reveal_strlit("pi_thread_vault");
    let raw = "[pi_thread_vault]"@;
    assert(!raw.contains('#')) by {
        if raw.contains('#') {
            let k = choose|k: int| 0 <= k < raw.len() && raw[k] == '#';
        }
    }
    lemma_trim_noop(raw);
    let inner = raw.subrange(1, raw.len() - 1);
    assert(inner =~= "pi_thread_vault"@);
    lemma_trim_noop(inner);
}

/// A blank line changes nothing.
proof fn lemma_blank_line(st: TomlState)
    ensures
        toml_line(st, Seq::empty()) == st,
{
    assert(split_once(Seq::<char>::empty(), '#') is None);
    assert(trim_start(Seq::<char>::empty()) == Seq::<char>::empty());
}

/// A value that the configuration file keeps as it is: no line break and no
/// `#` (which starts a comment).
pub open spec fn storable(v: Seq<char>) -> bool {
    !v.contains('\n') && !v.contains('#')
}

/// A quoted storable value: one line, without `#`, quote-delimited, and it
/// reads back as the value.
proof fn lemma_quoted_value(v: Seq<char>)
    requires
        storable(v),
    ensures
        !quoted(v).contains('\n'),
        !quoted(v).contains('#'),
        quoted(v).len() > 0,
        !is_ws(quoted(v)[0]),
        !is_ws(quoted(v).last()),
        unquoted(quoted(v)) == v,
{
    lemma_escaped_lacks(v, '\n');
    lemma_escaped_lacks(v, '#');
    let q = seq!['"'];
    assert(!q.contains('\n') && !q.contains('#'));
    lemma_concat_lacks(q, toml_escaped(v), '\n');
    lemma_concat_lacks(q + toml_escaped(v), q, '\n');
    lemma_concat_lacks(q, toml_escaped(v), '#');
    lemma_concat_lacks(q + toml_escaped(v), q, '#');
    lemma_unquote_escaped(v);
}

/// A boolean word: one line, without `#`, not quoted, and it reads back as
/// the boolean.
proof fn lemma_bool_value(b: bool)
    ensures
        !bool_word(b).contains('\n'),
        !bool_word(b).contains('#'),
        bool_word(b).len() > 0,
        !is_ws(bool_word(b)[0]),
        !is_ws(bool_word(b).last()),
        unquoted(bool_word(b)) == bool_word(b),
        bool_text(Some(bool_word(b))) == Some(b),
{
    reveal_strlit("true");
    reveal_strlit("false");
    let w = bool_word(b);
    assert(!w.contains('\n') && !w.contains('#')) by {
        if w.contains('\n') || w.contains('#') {
            let k = choose|k: int| 0 <= k < w.len() && (w[k] == '\n' || w[k] == '#');
        }
    }
    lemma_trim_noop(w);
    assert(w[0] != '"');
    assert("true"@ != "false"@) by {
        assert("true"@.len() != "false"@.len());
    }
}

/// A key made of lowercase letters and underscores can start a line.
proof fn lemma_plain_key(k: Seq<char>)
    requires
        k.len() > 0,
        forall|i: int| 0 <= i < k.len() ==> ('a' <= #[trigger] k[i] <= 'z' || k[i] == '_'),
    ensures
        !is_ws(k[0]),
        k[0] != '[',
        !is_ws(k.last()),
        !k.contains('='),
        !k.contains('#'),
        !k.contains('\n'),
{
    assert(!k.contains('=') && !k.contains('#') && !k.contains('\n')) by {
        if k.contains('=') || k.contains('#') || k.contains('\n') {
            let j = choose|j: int| 0 <= j < k.len() && (k[j] == '=' || k[j] == '#' || k[j] == '\n');
        }
    }
    assert(k.last() == k[k.len() - 1]);
}

/// A `key = value` line with a plain key and a one-line value has no line
/// break.
proof fn lemma_kv_one_line(k: Seq<char>, v: Seq<char>)
    requires
        !k.contains('\n'),
        !v.contains('\n'),
    ensures
        !kv(k, v).contains('\n'),
{
    let mid = seq![' ', '=', ' '];
    assert(!mid.contains('\n'));
    lemma_concat_lacks(k, mid, '\n');
    lemma_concat_lacks(k + mid, v, '\n');
}

/// The pairs read from the file written for a configuration.
pub open spec fn written_entries(c: Config, default_data_dir: Seq<char>, default_user_id: Seq<char>) -> Seq<
    (Seq<char>, Seq<char>),
> {
    let sec = Some("pi_thread_vault"@);
    seq![
        ("base_url"@, c.base_url@),
        ("token"@, written_token(c)),
        (qualified(sec, "data_dir"@), written_data_dir(c, default_data_dir)),
        (qualified(sec, "default_visibility"@), written_visibility(c)),
        (qualified(sec, "redaction_enabled"@), bool_word(written_redaction(c))),
        (qualified(sec, "memory_enabled"@), bool_word(written_memory(c))),
        (qualified(sec, "memory_user_id"@), written_user(c, default_user_id)),
    ]
}

/// The values written for a configuration are storable.
pub open spec fn config_storable(c: Config, default_data_dir: Seq<char>, default_user_id: Seq<char>) -> bool {
    &&& storable(c.base_url@)
    &&& storable(written_token(c))
    &&& storable(written_data_dir(c, default_data_dir))
    &&& storable(written_visibility(c))
    &&& storable(written_user(c, default_user_id))
}

/// The requirements of `lemma_kv_line` on a key.
pub open spec fn line_key(k: Seq<char>) -> bool {
    &&& k.len() > 0
    &&& !is_ws(k[0])
    &&& k[0] != '['
    &&& !is_ws(k.last())
    &&& !k.contains('=')
    &&& !k.contains('#')
}

/// The requirements of `lemma_kv_line` on a value.
pub open spec fn line_value(v: Seq<char>) -> bool {
    &&& v.len() > 0
    &&& !is_ws(v[0])
    &&& !is_ws(v.last())
    &&& !v.contains('#')
}

/// One step of the reader over a list of lines.
proof fn lemma_fold_step(lines: Seq<Seq<char>>, k: int)
    requires
        0 < k <= lines.len(),
    ensures
        toml_fold(lines.take(k)) == toml_line(toml_fold(lines.take(k - 1)), lines[k - 1]),
{
    assert(lines.take(k).drop_last() =~= lines.take(k - 1));
}

/// The reader over lines shaped like the configuration file.
proof fn lemma_fold_config_shape(
    k0: Seq<char>, v0: Seq<char>, k1: Seq<char>, v1: Seq<char>, k4: Seq<char>, v4: Seq<char>,
    k5: Seq<char>, v5: Seq<char>, k6: Seq<char>, v6: Seq<char>, k7: Seq<char>, v7: Seq<char>,
    k8: Seq<char>, v8: Seq<char>,
)
    requires
        line_key(k0), line_key(k1), line_key(k4), line_key(k5), line_key(k6), line_key(k7),
        line_key(k8),
        line_value(v0), line_value(v1), line_value(v4), line_value(v5), line_value(v6),
        line_value(v7), line_value(v8),
    ensures
        ({
            let sec = Some("pi_thread_vault"@);
            toml_fold(
                seq![kv(k0, v0), kv(k1, v1), Seq::empty(), "[pi_thread_vault]"@, kv(k4, v4), kv(k5, v5), kv(k6, v6), kv(k7, v7), kv(k8, v8), Seq::empty()],
            ).entries == seq![
                (k0, unquoted(v0)),
                (k1, unquoted(v1)),
                (qualified(sec, k4), unquoted(v4)),
                (qualified(sec, k5), unquoted(v5)),
                (qualified(sec, k6), unquoted(v6)),
                (qualified(sec, k7), unquoted(v7)),
                (qualified(sec, k8), unquoted(v8)),
            ]
        }),
{
    let lines = seq![kv(k0, v0), kv(k1, v1), Seq::empty(), "[pi_thread_vault]"@, kv(k4, v4), kv(k5, v5), kv(k6, v6), kv(k7, v7), kv(k8, v8), Seq::empty()];
    let sec = Some("pi_thread_vault"@);
    let s0 = TomlState { section: None, entries: Seq::empty() };
    assert(toml_fold(lines.take(0)) == s0);
    lemma_fold_step(lines, 1);
    lemma_kv_line(s0, k0, v0);
    let s1 = toml_fold(lines.take(1));
    lemma_fold_step(lines, 2);
    lemma_kv_line(s1, k1, v1);
    let s2 = toml_fold(lines.take(2));
    lemma_fold_step(lines, 3);
    lemma_blank_line(s2);
    lemma_fold_step(lines, 4);
    lemma_section_line(s2);
    let s4 = toml_fold(lines.take(4));
    lemma_fold_step(lines, 5);
    lemma_kv_line(s4, k4, v4);
    let s5 = toml_fold(lines.take(5));
    lemma_fold_step(lines, 6);
    lemma_kv_line(s5, k5, v5);
    let s6 = toml_fold(lines.take(6));
    lemma_fold_step(lines, 7);
    lemma_kv_line(s6, k6, v6);
    let s7 = toml_fold(lines.take(7));
    lemma_fold_step(lines, 8);
    lemma_kv_line(s7, k7, v7);
    let s8 = toml_fold(lines.take(8));
    lemma_fold_step(lines, 9);
    lemma_kv_line(s8, k8, v8);
    let s9 = toml_fold(lines.take(9));
    lemma_fold_step(lines, 10);
    lemma_blank_line(s9);
    assert(lines.take(10) =~= lines);
    assert(toml_fold(lines).entries =~= seq![
        (k0, unquoted(v0)),
        (k1, unquoted(v1)),
        (qualified(sec, k4), unquoted(v4)),
        (qualified(sec, k5), unquoted(v5)),
        (qualified(sec, k6), unquoted(v6)),
        (qualified(sec, k7), unquoted(v7)),
        (qualified(sec, k8), unquoted(v8)),
    ]);
}

/// The keys of the configuration file can start its lines.
proof fn lemma_config_keys()
    ensures
        line_key("base_url"@) && !"base_url"@.contains('\n'),
        line_key("token"@) && !"token"@.contains('\n'),
        line_key("data_dir"@) && !"data_dir"@.contains('\n'),
        line_key("default_visibility"@) && !"default_visibility"@.contains('\n'),
        line_key("redaction_enabled"@) && !"redaction_enabled"@.contains('\n'),
        line_key("memory_enabled"@) && !"memory_enabled"@.contains('\n'),
        line_key("memory_user_id"@) && !"memory_user_id"@.contains('\n'),
        !"[pi_thread_vault]"@.contains('\n'),
{
    reveal_strlit("base_url");
    reveal_strlit("token");
    reveal_strlit("data_dir");
    reveal_strlit("default_visibility");
    reveal_strlit("redaction_enabled");
    reveal_strlit("memory_enabled");
    reveal_strlit("memory_user_id");
    reveal_strlit("[pi_thread_vault]");
    lemma_plain_key("base_url"@);
    lemma_plain_key("token"@);
    lemma_plain_key("data_dir"@);
    lemma_plain_key("default_visibility"@);
    lemma_plain_key("redaction_enabled"@);
    lemma_plain_key("memory_enabled"@);
    lemma_plain_key("memory_user_id"@);
    assert(!"[pi_thread_vault]"@.contains('\n')) by {
        if "[pi_thread_vault]"@.contains('\n') {
            let k = choose|k: int|
                0 <= k < "[pi_thread_vault]"@.len() && "[pi_thread_vault]"@[k] == '\n';
        }
    }
}

/// The written file splits into its lines.
proof fn lemma_config_split(c: Config, default_data_dir: Seq<char>, default_user_id: Seq<char>)
    requires
        config_storable(c, default_data_dir, default_user_id),
    ensures
        crate::text::split_parts(config_text(c, default_data_dir, default_user_id), '\n')
            == config_lines(c, default_data_dir, default_user_id),
{
    let lines = config_lines(c, default_data_dir, default_user_id);
    lemma_config_keys();
    lemma_quoted_value(c.base_url@);
    lemma_quoted_value(written_token(c));
    lemma_quoted_value(written_data_dir(c, default_data_dir));
    lemma_quoted_value(written_visibility(c));
    lemma_quoted_value(written_user(c, default_user_id));
    lemma_bool_value(written_redaction(c));
    lemma_bool_value(written_memory(c));
    lemma_kv_one_line("base_url"@, quoted(c.base_url@));
    lemma_kv_one_line("token"@, quoted(written_token(c)));
    lemma_kv_one_line("data_dir"@, quoted(written_data_dir(c, default_data_dir)));
    lemma_kv_one_line("default_visibility"@, quoted(written_visibility(c)));
    lemma_kv_one_line("redaction_enabled"@, bool_word(written_redaction(c)));
    lemma_kv_one_line("memory_enabled"@, bool_word(written_memory(c)));
    lemma_kv_one_line("memory_user_id"@, quoted(written_user(c, default_user_id)));
    assert(!Seq::<char>::empty().contains('\n'));
    assert forall|i: int| 0 <= i < lines.len() implies !(#[trigger] lines[i]).contains('\n') by {
    }
    lemma_split_join(lines, '\n');
}

/// Reading the written file yields the written pairs, in order.
proof fn lemma_config_entries(c: Config, default_data_dir: Seq<char>, default_user_id: Seq<char>)
    requires
        config_storable(c, default_data_dir, default_user_id),
    ensures
        toml_entries(config_text(c, default_data_dir, default_user_id)) == written_entries(
            c,
            default_data_dir,
            default_user_id,
        ),
{
    lemma_config_split(c, default_data_dir, default_user_id);
    lemma_config_keys();
    lemma_quoted_value(c.base_url@);
    lemma_quoted_value(written_token(c));
    lemma_quoted_value(written_data_dir(c, default_data_dir));
    lemma_quoted_value(written_visibility(c));
    lemma_quoted_value(written_user(c, default_user_id));
    lemma_bool_value(written_redaction(c));
    lemma_bool_value(written_memory(c));
    lemma_fold_config_shape(
        "base_url"@,
        quoted(c.base_url@),
        "token"@,
        quoted(written_token(c)),
        "data_dir"@,
        quoted(written_data_dir(c, default_data_dir)),
        "default_visibility"@,
        quoted(written_visibility(c)),
        "redaction_enabled"@,
        bool_word(written_redaction(c)),
        "memory_enabled"@,
        bool_word(written_memory(c)),
        "memory_user_id"@,
        quoted(written_user(c, default_user_id)),
    );
    assert(written_entries(c, default_data_dir, default_user_id) =~= toml_entries(
        config_text(c, default_data_dir, default_user_id),
    ));
}

/// The section keys of the written pairs are the keys the reader looks up.
proof fn lemma_qualified_keys()
    ensures
        qualified(Some("pi_thread_vault"@), "data_dir"@) == "pi_thread_vault.data_dir"@,
        qualified(Some("pi_thread_vault"@), "default_visibility"@)
            == "pi_thread_vault.default_visibility"@,
        qualified(Some("pi_thread_vault"@), "redaction_enabled"@)
            == "pi_thread_vault.redaction_enabled"@,
        qualified(Some("pi_thread_vault"@), "memory_enabled"@) == "pi_thread_vault.memory_enabled"@,
        qualified(Some("pi_thread_vault"@), "memory_user_id"@) == "pi_thread_vault.memory_user_id"@,
{
    reveal_strlit("pi_thread_vault");
    reveal_strlit(".");
    reveal_strlit("data_dir");
    reveal_strlit("default_visibility");
    reveal_strlit("redaction_enabled");
    reveal_strlit("memory_enabled");
    reveal_strlit("memory_user_id");
    reveal_strlit("pi_thread_vault.data_dir");
    reveal_strlit("pi_thread_vault.default_visibility");
    reveal_strlit("pi_thread_vault.redaction_enabled");
    reveal_strlit("pi_thread_vault.memory_enabled");
    reveal_strlit("pi_thread_vault.memory_user_id");
    assert(qualified(Some("pi_thread_vault"@), "data_dir"@) =~= "pi_thread_vault.data_dir"@);
    assert(qualified(Some("pi_thread_vault"@), "default_visibility"@)
        =~= "pi_thread_vault.default_visibility"@);
    assert(qualified(Some("pi_thread_vault"@), "redaction_enabled"@)
        =~= "pi_thread_vault.redaction_enabled"@);
    assert(qualified(Some("pi_thread_vault"@), "memory_enabled"@)
        =~= "pi_thread_vault.memory_enabled"@);
    assert(qualified(Some("pi_thread_vault"@), "memory_user_id"@)
        =~= "pi_thread_vault.memory_user_id"@);
}

/// The keys the reader looks up are distinct.
proof fn lemma_config_keys_distinct()
    ensures
        "base_url"@ != "token"@,
        "base_url"@ != "pi_thread_vault.data_dir"@,
        "base_url"@ != "pi_thread_vault.default_visibility"@,
        "base_url"@ != "pi_thread_vault.redaction_enabled"@,
        "base_url"@ != "pi_thread_vault.memory_enabled"@,
        "base_url"@ != "pi_thread_vault.memory_user_id"@,
        "token"@ != "pi_thread_vault.data_dir"@,
        "token"@ != "pi_thread_vault.default_visibility"@,
        "token"@ != "pi_thread_vault.redaction_enabled"@,
        "token"@ != "pi_thread_vault.memory_enabled"@,
        "token"@ != "pi_thread_vault.memory_user_id"@,
        "pi_thread_vault.data_dir"@ != "pi_thread_vault.default_visibility"@,
        "pi_thread_vault.data_dir"@ != "pi_thread_vault.redaction_enabled"@,
        "pi_thread_vault.data_dir"@ != "pi_thread_vault.memory_enabled"@,
        "pi_thread_vault.data_dir"@ != "pi_thread_vault.memory_user_id"@,
        "pi_thread_vault.default_visibility"@ != "pi_thread_vault.redaction_enabled"@,
        "pi_thread_vault.default_visibility"@ != "pi_thread_vault.memory_enabled"@,
        "pi_thread_vault.default_visibility"@ != "pi_thread_vault.memory_user_id"@,
        "pi_thread_vault.redaction_enabled"@ != "pi_thread_vault.memory_enabled"@,
        "pi_thread_vault.redaction_enabled"@ != "pi_thread_vault.memory_user_id"@,
        "pi_thread_vault.memory_enabled"@ != "pi_thread_vault.memory_user_id"@,
{
    reveal_strlit("base_url");
    reveal_strlit("token");
    reveal_strlit("pi_thread_vault.data_dir");
    reveal_strlit("pi_thread_vault.default_visibility");
    reveal_strlit("pi_thread_vault.redaction_enabled");
    reveal_strlit("pi_thread_vault.memory_enabled");
    reveal_strlit("pi_thread_vault.memory_user_id");
    assert("base_url"@.len() == 8);
    assert("token"@.len() == 5);
    assert("pi_thread_vault.data_dir"@.len() == 24);
    assert("pi_thread_vault.default_visibility"@.len() == 34);
    assert("pi_thread_vault.redaction_enabled"@.len() == 33);
    assert("pi_thread_vault.memory_enabled"@.len() == 30);
    assert("pi_thread_vault.memory_user_id"@.len() == 30);
    assert("pi_thread_vault.memory_enabled"@[23] != "pi_thread_vault.memory_user_id"@[23]);
}

/// A configuration written by `format_config_toml` reads back through
/// `parse_toml_config` as the configuration with its absent values filled by
/// the defaults written for them (an absent token reads back as empty),
/// provided no written value holds a line break or a `#`.
pub proof fn lemma_config_roundtrip(
    c: Config,
    default_data_dir: Seq<char>,
    default_user_id: Seq<char>,
    read: Config,
)
    requires
        config_storable(c, default_data_dir, default_user_id),
        config_read(config_text(c, default_data_dir, default_user_id), read),
    ensures
        read.base_url@ == c.base_url@,
        opt_seq(read.token) == Some(written_token(c)),
        opt_seq(read.pi_thread_vault_data_dir) == Some(written_data_dir(c, default_data_dir)),
        opt_seq(read.pi_thread_vault_default_visibility) == Some(written_visibility(c)),
        read.pi_thread_vault_redaction_enabled == Some(written_redaction(c)),
        read.pi_thread_vault_memory_enabled == Some(written_memory(c)),
        opt_seq(read.pi_thread_vault_memory_user_id) == Some(written_user(c, default_user_id)),
{
    lemma_config_entries(c, default_data_dir, default_user_id);
    lemma_qualified_keys();
    lemma_config_keys_distinct();
    lemma_bool_value(written_redaction(c));
    lemma_bool_value(written_memory(c));
    reveal_with_fuel(toml_get, 8);
    let e = written_entries(c, default_data_dir, default_user_id);
    assert(toml_get(e, "base_url"@) == Some(c.base_url@));
    assert(toml_get(e, "token"@) == Some(written_token(c)));
    assert(toml_get(e, "pi_thread_vault.data_dir"@) == Some(written_data_dir(c, default_data_dir)));
    assert(toml_get(e, "pi_thread_vault.default_visibility"@) == Some(written_visibility(c)));
    assert(toml_get(e, "pi_thread_vault.redaction_enabled"@) == Some(
        bool_word(written_redaction(c)),
    ));
    assert(toml_get(e, "pi_thread_vault.memory_enabled"@) == Some(bool_word(written_memory(c))));
    assert(toml_get(e, "pi_thread_vault.memory_user_id"@) == Some(written_user(c, default_user_id)));
}

} // verus!
