//! Splitting text into fields (maximal runs of non-separator characters) and
//! joining them again, as `split_whitespace` or `split('-')` followed by a
//! filter on empty parts and `join` do.

use vstd::prelude::*;
use crate::text::is_ws;

verus! {

/// The separator test of a split: whitespace, or one given character.
pub open spec fn separator(ws: bool, ch: char) -> spec_fn(char) -> bool {
    |c: char|
        if ws {
            is_ws(c)
        } else {
            c == ch
        }
}

/// The fields of `s`: its maximal runs of characters that are not separators,
/// in order.
pub open spec fn fields(s: Seq<char>, sep: spec_fn(char) -> bool) -> Seq<Seq<char>>
    decreases s.len(),
{
    if s.len() == 0 {
        Seq::empty()
    } else {
        let prev = fields(s.drop_last(), sep);
        let c = s.last();
        if sep(c) {
            prev
        } else if s.len() == 1 || sep(s[s.len() - 2]) {
            prev.push(seq![c])
        } else {
            prev.update(prev.len() - 1, prev.last().push(c))
        }
    }
}

/// The parts joined with `d` between consecutive parts.
pub open spec fn join_with(parts: Seq<Seq<char>>, d: Seq<char>) -> Seq<char>
    decreases parts.len(),
{
    if parts.len() == 0 {
        Seq::empty()
    } else if parts.len() == 1 {
        parts[0]
    } else {
        join_with(parts.drop_last(), d) + d + parts.last()
    }
}

/// A text that ends with a non-separator has at least one field.
pub proof fn lemma_fields_nonempty(s: Seq<char>, sep: spec_fn(char) -> bool)
    requires
        s.len() > 0,
        !sep(s.last()),
    ensures
        fields(s, sep).len() > 0,
    decreases s.len(),
{
    if s.len() > 1 && !sep(s[s.len() - 2]) {
        lemma_fields_nonempty(s.drop_last(), sep);
    }
}

/// Every field holds at least one character.
pub proof fn lemma_fields_not_empty(s: Seq<char>, sep: spec_fn(char) -> bool)
    ensures
        forall|i: int| 0 <= i < fields(s, sep).len() ==> (#[trigger] fields(s, sep)[i]).len() > 0,
    decreases s.len(),
{
    if s.len() > 0 {
        lemma_fields_not_empty(s.drop_last(), sep);
        let prev = fields(s.drop_last(), sep);
        let c = s.last();
        let f = fields(s, sep);
        assert forall|i: int| 0 <= i < f.len() implies (#[trigger] f[i]).len() > 0 by {
            if sep(c) {
                assert(f[i] == prev[i]);
            } else if s.len() == 1 || sep(s[s.len() - 2]) {
                if i < prev.len() {
                    assert(f[i] == prev[i]);
                } else {
                    assert(f[i] == seq![c]);
                }
            } else {
                assert(s.drop_last().last() == s[s.len() - 2]);
                lemma_fields_nonempty(s.drop_last(), sep);
                if i < prev.len() - 1 {
                    assert(f[i] == prev[i]);
                } else {
                    assert(f[i] == prev.last().push(c));
                }
            }
        }
    }
}

/// Extending the last part extends the joined text.
pub proof fn lemma_join_extend_last(parts: Seq<Seq<char>>, d: Seq<char>, c: char)
    requires
        parts.len() > 0,
    ensures
        join_with(parts.update(parts.len() - 1, parts.last().push(c)), d) == join_with(parts, d).push(
            c,
        ),
{
    let upd = parts.update(parts.len() - 1, parts.last().push(c));
    if parts.len() == 1 {
        assert(upd =~= seq![parts[0].push(c)]);
    } else {
        assert(upd.drop_last() =~= parts.drop_last());
        assert(upd.last() == parts.last().push(c));
        assert(join_with(upd, d) =~= join_with(parts, d).push(c));
    }
}

/// Adding a part adds the delimiter and the part.
pub proof fn lemma_join_push(parts: Seq<Seq<char>>, d: Seq<char>, p: Seq<char>)
    ensures
        join_with(parts.push(p), d) == if parts.len() == 0 {
            p
        } else {
            join_with(parts, d) + d + p
        },
{
    let np = parts.push(p);
    assert(np.drop_last() =~= parts);
    if parts.len() == 0 {
        assert(np =~= seq![p]);
    }
}

/// The fields of `s` joined by `joiner`: `split_whitespace` (when `ws`) or
/// `split(sep_char)` without empty parts, then `join`.
pub fn join_fields(s: &[char], ws: bool, sep_char: char, joiner: char) -> (r: Vec<char>)
    ensures
        r@ == join_with(fields(s@, separator(ws, sep_char)), seq![joiner]),
{
    let ghost sep = separator(ws, sep_char);
    let ghost d = seq![joiner];
    let mut out: Vec<char> = Vec::new();
    let mut have_field = false;
    let mut i: usize = 0;
    assert(s@.take(0) =~= Seq::<char>::empty());
    while i < s.len()
        invariant
            i <= s.len(),
            sep == separator(ws, sep_char),
            d == seq![joiner],
            out@ == join_with(fields(s@.take(i as int), sep), d),
            have_field == (fields(s@.take(i as int), sep).len() > 0),
        decreases s.len() - i,
    {
        let c = s[i];
        let is_sep = if ws {
            crate::text::is_whitespace(c)
        } else {
            c == sep_char
        };
        let boundary = i == 0 || (if ws {
            crate::text::is_whitespace(s[i - 1])
        } else {
            s[i - 1] == sep_char
        });
        let ghost t = s@.take(i + 1);
        let ghost prev = fields(s@.take(i as int), sep);
        proof {
            assert(t.drop_last() =~= s@.take(i as int));
            assert(t.last() == c);
            assert(is_sep == sep(c));
            if i > 0 {
                assert(t[t.len() - 2] == s@[i - 1]);
                assert(boundary == sep(s@[i - 1]));
            }
        }
        if is_sep {
            assert(fields(t, sep) == prev);
        } else if boundary {
            assert(fields(t, sep) == prev.push(seq![c]));
            proof {
                lemma_join_push(prev, d, seq![c]);
            }
            if have_field {
                out.push(joiner);
            }
            out.push(c);
            proof {
                if prev.len() == 0 {
                    assert(out@ =~= seq![c]);
                } else {
                    assert(out@ =~= join_with(prev, d) + d + seq![c]);
                }
            }
            have_field = true;
        } else {
            proof {
                lemma_fields_nonempty(s@.take(i as int), sep);
                assert(s@.take(i as int).last() == s@[i - 1]);
                lemma_join_extend_last(prev, d, c);
            }
            assert(fields(t, sep) == prev.update(prev.len() - 1, prev.last().push(c)));
            out.push(c);
        }
        i = i + 1;
    }
    assert(s@.take(s.len() as int) =~= s@);
    out
}

/// Splitting text made of lines joined by `c`, none of which holds `c`,
/// gives back the lines.
pub proof fn lemma_split_join(lines: Seq<Seq<char>>, c: char)
    requires
        lines.len() >= 1,
        forall|i: int| 0 <= i < lines.len() ==> !(#[trigger] lines[i]).contains(c),
    ensures
        crate::text::split_parts(join_with(lines, seq![c]), c) == lines,
    decreases lines.len(),
{
    if lines.len() == 1 {
        crate::text::lemma_split_parts_single(lines[0], c);
        assert(seq![lines[0]] =~= lines);
    } else {
        let init = lines.drop_last();
        assert forall|i: int| 0 <= i < init.len() implies !(#[trigger] init[i]).contains(c) by {
            assert(init[i] == lines[i]);
        }
        lemma_split_join(init, c);
        assert(!lines.last().contains(c));
        crate::text::lemma_split_parts_push(join_with(init, seq![c]), c, lines.last());
        assert(init.push(lines.last()) =~= lines);
    }
}

} // verus!
