//! Thread titles derived from the first meaningful message of a session.

use vstd::prelude::*;
use crate::fields::{fields, join_fields, join_with, separator};
use crate::text::{byte_len, char_utf8_width, chars_of, first_index, has_prefix, is_ws, lemma_encode_utf8_concat, lemma_first_index, starts_with_chars, str_byte_len, string_from_chars, sub_chars, trim, trim_chars, find_char};

verus! {

/// `char::is_alphanumeric`: the character is alphabetic or numeric in Unicode.
pub uninterp spec fn unicode_alphanumeric(c: char) -> bool;

/// `char::is_alphanumeric`. ASCII letters and digits are alphanumeric, as the
/// documentation's examples show; nothing more is stated of other characters.
#[verifier::external_body]
pub(crate) fn is_alphanumeric(c: char) -> (r: bool)
    ensures
        r == unicode_alphanumeric(c),
        ('a' <= c <= 'z' || 'A' <= c <= 'Z' || '0' <= c <= '9') ==> r,
{
    c.is_alphanumeric()
}

/// Some whitespace-separated word of `s` holds an alphanumeric character.
pub open spec fn has_words_spec(s: Seq<char>) -> bool {
    exists|i: int| 0 <= i < s.len() && !is_ws(s[i]) && unicode_alphanumeric(s[i])
}

/// Whether some word of `value` holds a letter or a digit.
pub fn has_words(value: &str) -> (r: bool)
    ensures
        r == has_words_spec(value@),
{
    let v = chars_of(value);
    let mut i: usize = 0;
    while i < v.len()
        invariant
            i <= v.len(),
            v@ == value@,
            forall|k: int| 0 <= k < i ==> !(!is_ws(value@[k]) && unicode_alphanumeric(value@[k])),
        decreases v.len() - i,
    {
        if !crate::text::is_whitespace(v[i]) && is_alphanumeric(v[i]) {
            return true;
        }
        i = i + 1;
    }
    false
}

/// A trimmed line that can serve as a title: not empty, not a code fence and
/// not the start of a JSON object.
pub open spec fn title_line_ok(line: Seq<char>) -> bool {
    line.len() > 0 && !has_prefix(line, seq!['`', '`', '`']) && !has_prefix(line, seq!['{'])
}

/// The first line of `s` (split at line breaks, each trimmed) that can serve
/// as a title.
pub open spec fn first_title_line(s: Seq<char>) -> Option<Seq<char>>
    decreases s.len(),
{
    if s.contains('\n') {
        let i = first_index(s, '\n');
        let line = trim(s.take(i));
        if title_line_ok(line) {
            Some(line)
        } else {
            proof {
                lemma_first_index(s, '\n');
            }
            first_title_line(s.skip(i + 1))
        }
    } else {
        let line = trim(s);
        if title_line_ok(line) {
            Some(line)
        } else {
            None
        }
    }
}

/// `s` without its leading `#` characters (`trim_start_matches('#')`).
pub open spec fn without_leading_hashes(s: Seq<char>) -> Seq<char>
    decreases s.len(),
{
    if s.len() > 0 && s[0] == '#' {
        without_leading_hashes(s.skip(1))
    } else {
        s
    }
}

/// The characters stripped from the end of a shortened title.
pub open spec fn is_title_punct(c: char) -> bool {
    c == '.' || c == ',' || c == ':' || c == ';' || c == '-'
}

/// `s` without trailing `.`, `,`, `:`, `;` and `-`.
pub open spec fn without_trailing_punct(s: Seq<char>) -> Seq<char>
    decreases s.len(),
{
    if s.len() > 0 && is_title_punct(s.last()) {
        without_trailing_punct(s.drop_last())
    } else {
        s
    }
}

/// The number of leading characters of `s` whose UTF-8 encoding fits in
/// `limit` bytes.
pub open spec fn fit_prefix_len(s: Seq<char>, limit: int) -> nat
    decreases s.len(),
{
    if s.len() == 0 {
        0
    } else if byte_len(seq![s[0]]) > limit {
        0
    } else {
        1 + fit_prefix_len(s.skip(1), limit - byte_len(seq![s[0]]))
    }
}

/// Index of the last space in `s`, or -1.
pub open spec fn last_space(s: Seq<char>) -> int
    decreases s.len(),
{
    if s.len() == 0 {
        -1
    } else if s.last() == ' ' {
        s.len() - 1
    } else {
        last_space(s.drop_last())
    }
}

/// The title text before shortening: the first suitable line (or the whole
/// content), without leading `#`, its words joined by single spaces.
pub open spec fn title_words(content: Seq<char>) -> Seq<char> {
    let source = match first_title_line(content) {
        Some(l) => l,
        None => content,
    };
    join_with(fields(without_leading_hashes(source), separator(true, ' ')), seq![' '])
}

/// A title made from message content: the words of the first suitable line,
/// cut to at most 80 bytes (at a space when one lies at byte 48 or later),
/// stripped of trailing punctuation and ended with `…` when cut.
pub open spec fn compact_title_text(content: Seq<char>) -> Seq<char> {
    let text = title_words(content);
    if byte_len(text) <= 80 {
        text
    } else {
        let k = fit_prefix_len(text, 80);
        let t = text.take(k as int);
        let j = last_space(t);
        let cut = if j >= 0 && byte_len(t.take(j)) >= 48 {
            j
        } else {
            k as int
        };
        without_trailing_punct(text.take(cut)) + seq!['…']
    }
}

/// The first suitable title line of `s`.
fn first_title_line_of(s: &[char]) -> (r: Option<Vec<char>>)
    ensures
        match r {
            Some(l) => first_title_line(s@) == Some(l@),
            None => first_title_line(s@) is None,
        },
{
    let fence: Vec<char> = vec!['`', '`', '`'];
    let brace: Vec<char> = vec!['{'];
    assert(fence@ =~= seq!['`', '`', '`']);
    assert(brace@ =~= seq!['{']);
    let mut rest: Vec<char> = sub_chars(s, 0, s.len());
    assert(rest@ =~= s@);
    loop
        invariant
            first_title_line(s@) == first_title_line(rest@),
            fence@ == seq!['`', '`', '`'],
            brace@ == seq!['{'],
        decreases rest@.len(),
    {
        match find_char(rest.as_slice(), '\n') {
            Some(i) => {
                proof {
                    lemma_first_index(rest@, '\n');
                }
                let head = sub_chars(rest.as_slice(), 0, i);
                let line = trim_chars(head.as_slice());
                assert(head@ =~= rest@.take(i as int));
                if line.len() > 0 && !starts_with_chars(line.as_slice(), fence.as_slice())
                    && !starts_with_chars(line.as_slice(), brace.as_slice()) {
                    return Some(line);
                }
                let next = sub_chars(rest.as_slice(), i + 1, rest.len());
                assert(next@ =~= rest@.skip(i + 1));
                rest = next;
            },
            None => {
                let line = trim_chars(rest.as_slice());
                if line.len() > 0 && !starts_with_chars(line.as_slice(), fence.as_slice())
                    && !starts_with_chars(line.as_slice(), brace.as_slice()) {
                    return Some(line);
                }
                return None;
            },
        }
    }
}

/// `s` without its leading `#` characters.
fn strip_leading_hashes(s: &[char]) -> (r: Vec<char>)
    ensures
        r@ == without_leading_hashes(s@),
{
    let mut i: usize = 0;
    assert(s@.skip(0) =~= s@);
    while i < s.len() && s[i] == '#'
        invariant
            i <= s.len(),
            without_leading_hashes(s@) == without_leading_hashes(s@.skip(i as int)),
        decreases s.len() - i,
    {
        assert(s@.skip(i as int).skip(1) =~= s@.skip(i + 1));
        i = i + 1;
    }
    let r = sub_chars(s, i, s.len());
    assert(r@ =~= s@.skip(i as int));
    r
}

/// `s` without trailing title punctuation.
fn strip_trailing_punct(s: &[char]) -> (r: Vec<char>)
    ensures
        r@ == without_trailing_punct(s@),
{
    let mut j: usize = s.len();
    assert(s@.take(s.len() as int) =~= s@);
    while j > 0 && (s[j - 1] == '.' || s[j - 1] == ',' || s[j - 1] == ':' || s[j - 1] == ';'
        || s[j - 1] == '-')
        invariant
            j <= s.len(),
            without_trailing_punct(s@) == without_trailing_punct(s@.take(j as int)),
        decreases j,
    {
        assert(s@.take(j as int).drop_last() =~= s@.take(j - 1));
        j = j - 1;
    }
    let r = sub_chars(s, 0, j);
    assert(r@ =~= s@.take(j as int));
    r
}

/// More room never fits fewer characters.
pub proof fn lemma_fit_prefix_monotone(s: Seq<char>, a: int, b: int)
    requires
        a <= b,
    ensures
        fit_prefix_len(s, a) <= fit_prefix_len(s, b),
        fit_prefix_len(s, b) <= s.len(),
    decreases s.len(),
{
    if s.len() > 0 {
        let w = byte_len(seq![s[0]]);
        lemma_fit_prefix_monotone(s.skip(1), a - w, b - w);
    }
}

/// The number of leading characters of `s` that fit in `limit` bytes.
pub(crate) fn fit_prefix(s: &[char], limit: usize) -> (k: usize)
    requires
        limit <= 80,
    ensures
        k == fit_prefix_len(s@, limit as int),
        k <= s.len(),
        byte_len(s@.take(k as int)) <= limit,
{
    let mut i: usize = 0;
    let mut used: usize = 0;
    assert(s@.take(0) =~= Seq::<char>::empty());
    assert(s@.skip(0) =~= s@);
    while i < s.len()
        invariant
            i <= s.len(),
            used <= limit <= 80,
            used == byte_len(s@.take(i as int)),
            fit_prefix_len(s@, limit as int) == i + fit_prefix_len(s@.skip(i as int), limit - used),
        decreases s.len() - i,
    {
        let w = char_utf8_width(s[i]);
        assert(s@.skip(i as int)[0] == s@[i as int]);
        if used + w > limit {
            return i;
        }
        proof {
            assert(s@.take(i + 1) =~= s@.take(i as int) + seq![s@[i as int]]);
            lemma_encode_utf8_concat(s@.take(i as int), seq![s@[i as int]]);
            assert(s@.skip(i as int).skip(1) =~= s@.skip(i + 1));
        }
        used = used + w;
        i = i + 1;
    }
    i
}

/// Index of the last space of `s`.
fn last_space_of(s: &[char]) -> (r: Option<usize>)
    ensures
        match r {
            Some(j) => last_space(s@) == j && j < s.len(),
            None => last_space(s@) == -1,
        },
{
    let mut j: usize = s.len();
    assert(s@.take(s.len() as int) =~= s@);
    while j > 0 && s[j - 1] != ' '
        invariant
            j <= s.len(),
            last_space(s@) == last_space(s@.take(j as int)),
        decreases j,
    {
        assert(s@.take(j as int).drop_last() =~= s@.take(j - 1));
        j = j - 1;
    }
    if j == 0 {
        assert(s@.take(0) =~= Seq::<char>::empty());
        None
    } else {
        Some(j - 1)
    }
}

/// The words of the title line of `content`, joined by single spaces.
pub(crate) fn title_words_of(content: &str) -> (r: Vec<char>)
    ensures
        r@ == title_words(content@),
{
    let v = chars_of(content);
    let source = match first_title_line_of(v.as_slice()) {
        Some(l) => l,
        None => v,
    };
    let unhashed = strip_leading_hashes(source.as_slice());
    join_fields(unhashed.as_slice(), true, ' ', ' ')
}

/// Makes a title of at most 80 bytes (plus `…`) from message content.
pub fn compact_title(content: &str) -> (r: String)
    ensures
        r@ == compact_title_text(content@),
{
    let words = title_words_of(content);
    let text = string_from_chars(words.as_slice());
    if str_byte_len(text.as_str()) <= 80 {
        return text;
    }
    let k = fit_prefix(words.as_slice(), 80);
    let t = sub_chars(words.as_slice(), 0, k);
    assert(t@ =~= words@.take(k as int));
    let cut = match last_space_of(t.as_slice()) {
        Some(j) => {
            let head_chars = sub_chars(t.as_slice(), 0, j);
            let head = string_from_chars(head_chars.as_slice());
            assert(head_chars@ =~= t@.take(j as int));
            if str_byte_len(head.as_str()) >= 48 {
                j
            } else {
                k
            }
        },
        None => k,
    };
    let kept = sub_chars(words.as_slice(), 0, cut);
    let mut out = strip_trailing_punct(kept.as_slice());
    out.push('…');
    assert(kept@ =~= words@.take(cut as int));
    string_from_chars(out.as_slice())
}

/// The characters that fit in `limit` bytes take at most `limit` bytes.
proof fn lemma_fit_prefix_bytes(s: Seq<char>, limit: int)
    requires
        limit >= 0,
    ensures
        byte_len(s.take(fit_prefix_len(s, limit) as int)) <= limit,
    decreases s.len(),
{
    lemma_fit_prefix_monotone(s, limit, limit);
    let k = fit_prefix_len(s, limit);
    if s.len() > 0 && byte_len(seq![s[0]]) <= limit {
        let w = byte_len(seq![s[0]]);
        lemma_fit_prefix_bytes(s.skip(1), limit - w);
        assert(s.take(k as int) =~= seq![s[0]] + s.skip(1).take(k - 1));
        crate::text::lemma_encode_utf8_concat(seq![s[0]], s.skip(1).take(k - 1));
    } else {
        assert(s.take(0) =~= Seq::<char>::empty());
    }
}

/// Dropping trailing punctuation keeps a prefix.
proof fn lemma_without_trailing_punct_prefix(s: Seq<char>)
    ensures
        without_trailing_punct(s).len() <= s.len(),
        without_trailing_punct(s) == s.take(without_trailing_punct(s).len() as int),
    decreases s.len(),
{
    if s.len() > 0 && is_title_punct(s.last()) {
        lemma_without_trailing_punct_prefix(s.drop_last());
        let w = without_trailing_punct(s.drop_last());
        assert(s.drop_last().take(w.len() as int) =~= s.take(w.len() as int));
    } else {
        assert(s.take(s.len() as int) =~= s);
    }
}

/// A title takes at most 80 bytes, or, when cut, at most 80 bytes followed by
/// the ellipsis.
pub proof fn lemma_compact_title_fits(content: Seq<char>)
    ensures
        byte_len(compact_title_text(content)) <= 80 || ({
            let r = compact_title_text(content);
            &&& r.len() > 0
            &&& r.last() == '…'
            &&& byte_len(r.drop_last()) <= 80
        }),
{
    let text = title_words(content);
    if byte_len(text) > 80 {
        let k = fit_prefix_len(text, 80);
        lemma_fit_prefix_bytes(text, 80);
        lemma_fit_prefix_monotone(text, 80, 80);
        let t = text.take(k as int);
        let j = last_space(t);
        lemma_last_space_bounds(t);
        let cut = if j >= 0 && byte_len(t.take(j)) >= 48 {
            j
        } else {
            k as int
        };
        let head = without_trailing_punct(text.take(cut));
        lemma_without_trailing_punct_prefix(text.take(cut));
        assert(head == text.take(head.len() as int)) by {
            assert(text.take(cut).take(head.len() as int) =~= text.take(head.len() as int));
        }
        crate::text::lemma_prefix_bytes_grow(text, head.len() as int, k as int);
        let r = compact_title_text(content);
        assert(r == head + seq!['…']);
        assert(r.drop_last() =~= head);
    }
}

/// `last_space` is -1 or a position of `s`.
proof fn lemma_last_space_bounds(s: Seq<char>)
    ensures
        -1 <= last_space(s) < s.len(),
    decreases s.len(),
{
    if s.len() > 0 && s.last() != ' ' {
        lemma_last_space_bounds(s.drop_last());
    }
}

} // verus!
