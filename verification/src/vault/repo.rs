//! Which repository a session was recorded in: read from the outputs of
//! `git` and `jj` run in its working directory.

use vstd::prelude::*;
use crate::fields::{fields, separator};
use crate::json::opt_seq;
use crate::text::{concat_str, split_once_chars, split_parts, string_from_chars, str_eq};

verus! {

/// The `name url` rows of a remote listing: each line with at least two
/// whitespace-separated fields gives its first two.
pub open spec fn remote_rows(lines: Seq<Seq<char>>) -> Seq<(Seq<char>, Seq<char>)>
    decreases lines.len(),
{
    if lines.len() == 0 {
        Seq::empty()
    } else {
        let prev = remote_rows(lines.drop_last());
        let f = fields(lines.last(), separator(true, ' '));
        if f.len() >= 2 {
            prev.push((f[0], f[1]))
        } else {
            prev
        }
    }
}

/// The address of the first row named `origin`, if any.
pub open spec fn origin_url(rows: Seq<(Seq<char>, Seq<char>)>) -> Option<Seq<char>>
    decreases rows.len(),
{
    if rows.len() == 0 {
        None
    } else if rows[0].0 == "origin"@ {
        Some(rows[0].1)
    } else {
        origin_url(rows.skip(1))
    }
}

/// The remote of a `jj git remote list` listing: the one named `origin`,
/// else the first one listed.
pub open spec fn jj_remote(listing: Seq<char>) -> Option<Seq<char>> {
    let rows = remote_rows(split_parts(listing, '\n'));
    match origin_url(rows) {
        Some(u) => Some(u),
        None => if rows.len() > 0 {
            Some(rows[0].1)
        } else {
            None
        },
    }
}

/// The whitespace-separated fields of a line.
fn line_fields(line: &[char]) -> (r: Vec<Vec<char>>)
    ensures
        r@.map_values(|f: Vec<char>| f@) == fields(line@, separator(true, ' ')),
{
    crate::cli::login::field_list(line)
}

/// The rows of a remote listing.
fn listing_rows(listing: &str) -> (r: Vec<(Vec<char>, Vec<char>)>)
    ensures
        r@.map_values(|p: (Vec<char>, Vec<char>)| (p.0@, p.1@)) == remote_rows(
            split_parts(listing@, '\n'),
        ),
{
    let mut rows: Vec<(Vec<char>, Vec<char>)> = Vec::new();
    let mut rest = crate::text::chars_of(listing);
    let ghost mut done: Seq<Seq<char>> = Seq::empty();
    loop
        invariant
            split_parts(listing@, '\n') == done + split_parts(rest@, '\n'),
            rows@.map_values(|p: (Vec<char>, Vec<char>)| (p.0@, p.1@)) == remote_rows(done),
        decreases rest@.len(),
    {
        let (line, next) = match split_once_chars(rest.as_slice(), '\n') {
            Some((a, b)) => (a, Some(b)),
            None => (crate::text::sub_chars(rest.as_slice(), 0, rest.len()), None),
        };
        proof {
            if rest@.contains('\n') {
                crate::text::lemma_first_index(rest@, '\n');
                assert(split_parts(rest@, '\n') == seq![line@] + split_parts(next->0@, '\n'));
            } else {
                assert(split_parts(rest@, '\n') == seq![rest@]);
                assert(line@ =~= rest@);
            }
        }
        let f = line_fields(line.as_slice());
        let ghost before = rows@.map_values(|p: (Vec<char>, Vec<char>)| (p.0@, p.1@));
        if f.len() >= 2 {
            let name = crate::text::sub_chars(f[0].as_slice(), 0, f[0].len());
            let url = crate::text::sub_chars(f[1].as_slice(), 0, f[1].len());
            proof {
                assert(f@.map_values(|x: Vec<char>| x@)[0] == f@[0]@);
                assert(f@.map_values(|x: Vec<char>| x@)[1] == f@[1]@);
                assert(name@ =~= f@[0]@);
                assert(url@ =~= f@[1]@);
            }
            rows.push((name, url));
            assert(rows@.map_values(|p: (Vec<char>, Vec<char>)| (p.0@, p.1@)) =~= before.push(
                (name@, url@),
            ));
        }
        proof {
            assert(done.push(line@).drop_last() =~= done);
            done = done.push(line@);
        }
        match next {
            Some(b) => {
                assert(split_parts(listing@, '\n') =~= done + split_parts(b@, '\n'));
                rest = b;
            },
            None => {
                assert(split_parts(listing@, '\n') =~= done);
                return rows;
            },
        }
    }
}

/// The remote of a `jj git remote list` listing.
pub fn jj_remote_of(listing: &str) -> (r: Option<String>)
    ensures
        opt_seq(r) == jj_remote(listing@),
{
    let rows = listing_rows(listing);
    let ghost rv = rows@.map_values(|p: (Vec<char>, Vec<char>)| (p.0@, p.1@));
    let mut i: usize = 0;
    assert(rv.skip(0) =~= rv);
    while i < rows.len()
        invariant
            i <= rows.len(),
            rv == rows@.map_values(|p: (Vec<char>, Vec<char>)| (p.0@, p.1@)),
            rv == remote_rows(split_parts(listing@, '\n')),
            origin_url(rv) == origin_url(rv.skip(i as int)),
        decreases rows.len() - i,
    {
        let name = string_from_chars(rows[i].0.as_slice());
        assert(rv.skip(i as int)[0] == rv[i as int]);
        if str_eq(name.as_str(), "origin") {
            let url = string_from_chars(rows[i].1.as_slice());
            assert(rv[i as int] == (rows@[i as int].0@, rows@[i as int].1@));
            assert(origin_url(rv.skip(i as int)) == Some(url@));
            return Some(url);
        }
        assert(rv.skip(i as int).skip(1) =~= rv.skip(i + 1));
        i = i + 1;
    }
    assert(rv.skip(i as int) =~= Seq::<(Seq<char>, Seq<char>)>::empty());
    if rows.len() > 0 {
        assert(rv[0] == (rows@[0].0@, rows@[0].1@));
        Some(string_from_chars(rows[0].1.as_slice()))
    } else {
        None
    }
}

/// What `jj` reports of a working copy, each `None` when its command failed
/// or printed nothing.
#[derive(Debug, Clone, PartialEq, Eq)]
pub struct JjState {
    /// `jj git remote list`.
    pub remotes: Option<String>,
    /// The bookmarks of `@`, joined by `, `.
    pub bookmarks: Option<String>,
    /// The short change id of `@`.
    pub change: Option<String>,
    /// The short commit id of `@`.
    pub commit: Option<String>,
}

/// The remote, branch and head recorded for a session: what `git` reports,
/// or, in a `jj` repository, what `jj` reports with `git` as the fallback
/// (a change id shows as `jj:<change>` when there is no branch).
pub open spec fn repo_fields(
    git_remote: Option<Seq<char>>,
    git_branch: Option<Seq<char>>,
    git_head: Option<Seq<char>>,
    jj: Option<(Option<Seq<char>>, Option<Seq<char>>, Option<Seq<char>>, Option<Seq<char>>)>,
) -> (Option<Seq<char>>, Option<Seq<char>>, Option<Seq<char>>) {
    match jj {
        None => (git_remote, git_branch, git_head),
        Some((remotes, bookmarks, change, commit)) => (
            match remotes {
                Some(l) => match jj_remote(l) {
                    Some(u) => Some(u),
                    None => git_remote,
                },
                None => git_remote,
            },
            match bookmarks {
                Some(b) => Some(b),
                None => match git_branch {
                    Some(b) => Some(b),
                    None => match change {
                        Some(c) => Some("jj:"@ + c),
                        None => None,
                    },
                },
            },
            match commit {
                Some(c) => Some(c),
                None => git_head,
            },
        ),
    }
}

/// Combines the outputs of `git` and, in a `jj` repository, of `jj`.
pub fn repo_info(
    git_remote: Option<String>,
    git_branch: Option<String>,
    git_head: Option<String>,
    jj: Option<JjState>,
) -> (r: (Option<String>, Option<String>, Option<String>))
    ensures
        (opt_seq(r.0), opt_seq(r.1), opt_seq(r.2)) == repo_fields(
            opt_seq(git_remote),
            opt_seq(git_branch),
            opt_seq(git_head),
            match jj {
                Some(s) => Some((opt_seq(s.remotes), opt_seq(s.bookmarks), opt_seq(s.change), opt_seq(s.commit))),
                None => None,
            },
        ),
{
    match jj {
        None => (git_remote, git_branch, git_head),
        Some(s) => {
            let remote = match &s.remotes {
                Some(l) => match jj_remote_of(l.as_str()) {
                    Some(u) => Some(u),
                    None => git_remote,
                },
                None => git_remote,
            };
            let branch = match s.bookmarks {
                Some(b) => Some(b),
                None => match git_branch {
                    Some(b) => Some(b),
                    None => match &s.change {
                        Some(c) => Some(concat_str("jj:", c.as_str())),
                        None => None,
                    },
                },
            };
            let head = match s.commit {
                Some(c) => Some(c),
                None => git_head,
            };
            (remote, branch, head)
        },
    }
}

} // verus!
