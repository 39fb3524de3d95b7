//! Full-text search over vault events: what is searched for, and how.

use vstd::prelude::*;
use crate::text::{concat3, trim, trim_str};

verus! {

/// One event that matched a search, with its thread.
#[derive(Debug, Clone)]
pub struct SearchResult {
    pub thread_id: String,
    pub thread_title: Option<String>,
    pub role: String,
    pub kind: String,
    pub content: Option<String>,
    pub created_at: Option<String>,
}

/// The query string of the search page.
#[derive(Debug, Clone, Default)]
pub struct SearchQuery {
    pub q: Option<String>,
}

/// A query that is blank once trimmed runs no search at all and matches
/// nothing, rather than every event.
pub fn search_runs(query: &str) -> (r: bool)
    ensures
        r == (trim(query@).len() > 0),
{
    let t = trim_str(query);
    !t.as_str().is_empty()
}

/// The `LIKE` pattern of the fallback search: the query anywhere in the text.
pub fn like_needle(query: &str) -> (r: String)
    ensures
        r@ == "%"@ + query@ + "%"@,
{
    concat3("%", query, "%")
}

} // verus!
