//! What the vault's pages show: threads, shares, handoffs and API clients,
//! as read from the database and formatted for display.

use vstd::prelude::*;
use crate::json::opt_seq;
use crate::text::str_eq;
use crate::vault::keys::GeneratedKey;
use crate::vault::search::SearchResult;
use crate::vault::web::{
    available_tools_are, extract_available_tools, extract_system_prompt, group_thought_events,
    grouped, listed_events, merge_tool_results, merged_events, summary_is, system_prompt_of,
    visible_events, EventDetail, EventView, ToolSummary,
};
use crate::vault::api::{thread_url, without_trailing_slashes};

verus! {

/// A thread in the index.
#[derive(Debug, Clone)]
pub struct ThreadSummary {
    pub id: String,
    pub title: Option<String>,
    pub repo_remote: Option<String>,
    pub repo_branch: Option<String>,
    pub repo_head: Option<String>,
    pub default_visibility: String,
    pub updated_at: String,
    pub updated_at_display: String,
    pub event_count: i64,
}

/// The header of a thread page.
#[derive(Debug, Clone)]
pub struct ThreadDetail {
    pub id: String,
    pub external_session_id: String,
    pub title: Option<String>,
    pub cwd: Option<String>,
    pub repo_remote: Option<String>,
    pub repo_branch: Option<String>,
    pub repo_head: Option<String>,
    pub default_visibility: String,
    pub created_at: String,
    pub created_at_display: String,
    pub updated_at: String,
    pub updated_at_display: String,
}

/// A share of a thread, as listed on the thread page.
#[derive(Debug, Clone)]
pub struct ShareDetail {
    pub id: String,
    pub share_kind: String,
    pub url: Option<String>,
    pub revoked_at: Option<String>,
    pub revoked_at_display: Option<String>,
    pub created_at: String,
    pub created_at_display: String,
}

/// A handoff recorded from a thread.
#[derive(Debug, Clone)]
pub struct HandoffDetail {
    pub id: String,
    pub source_thread_id: String,
    pub target_thread_id: Option<String>,
    pub target_external_session_id: Option<String>,
    pub goal: String,
    pub created_at: String,
    pub created_at_display: String,
}

/// An API client on the admin page.
#[derive(Debug, Clone)]
pub struct ClientDetail {
    pub id: String,
    pub name: String,
    pub token_prefix: Option<String>,
    pub created_at: String,
    pub created_at_display: String,
    pub last_seen_at: Option<String>,
    pub last_seen_at_display: Option<String>,
    pub revoked_at: Option<String>,
    pub revoked_at_display: Option<String>,
}

/// A share on the admin page.
#[derive(Debug, Clone)]
pub struct AdminShareDetail {
    pub id: String,
    pub thread_id: String,
    pub share_kind: String,
    pub revoked_at: Option<String>,
    pub revoked_at_display: Option<String>,
    pub created_at: String,
    pub created_at_display: String,
}

/// The form that creates an API client.
#[derive(Debug, Clone)]
pub struct NewClientForm {
    pub name: String,
}

/// The link listed for a share on its thread's page: a public share links to
/// the thread itself, the others to nothing (their token is not kept).
pub fn listed_share_url(base_url: &str, thread_id: &str, share_kind: &str) -> (r: Option<String>)
    ensures
        share_kind@ == "public"@ ==> (r matches Some(u) && u@ == without_trailing_slashes(base_url@)
            + "/admin/threads/"@ + thread_id@),
        share_kind@ != "public"@ ==> r is None,
{
    if str_eq(share_kind, "public") {
        Some(thread_url(base_url, thread_id))
    } else {
        None
    }
}

/// The index of threads.
#[derive(Debug)]
pub struct IndexTemplate {
    pub threads: Vec<ThreadSummary>,
}

/// The page of a thread: its rows, how many events it holds, its system
/// prompt and tools, its shares and handoffs.
#[derive(Debug)]
pub struct ThreadTemplate {
    pub thread: ThreadDetail,
    pub events: Vec<EventView>,
    pub total_events: usize,
    pub system_prompt: Option<String>,
    pub available_tools: Vec<ToolSummary>,
    pub shares: Vec<ShareDetail>,
    pub handoffs: Vec<HandoffDetail>,
    pub base_url: String,
    pub can_share_publicly: bool,
}

/// The raw event tree of a thread.
#[derive(Debug)]
pub struct TreeTemplate {
    pub thread: ThreadDetail,
    pub events: Vec<EventDetail>,
}

/// The search page.
#[derive(Debug)]
pub struct SearchTemplate {
    pub query: String,
    pub thread_id: Option<String>,
    pub results: Vec<SearchResult>,
}

/// The password form of a protected share, with an error after a wrong
/// password.
#[derive(Debug)]
pub struct SharePasswordTemplate {
    pub share_token: String,
    pub error: Option<String>,
}

/// The vault admin page: API clients, recent shares, and whether public
/// sharing is on.
#[derive(Debug)]
pub struct AdminTemplate {
    pub clients: Vec<ClientDetail>,
    pub shares: Vec<AdminShareDetail>,
    pub public_sharing: bool,
}

/// The page that shows a newly minted API key, the only time its token is
/// shown.
#[derive(Debug)]
pub struct KeyCreatedTemplate {
    pub client_id: String,
    pub name: String,
    pub plaintext_token: String,
    pub token_prefix: String,
}

/// The thread page for a thread and its events, as stored and in order:
/// the system prompt and the available tools are read from all events; the
/// rows list the others, with each tool result attached to its call and runs
/// of tool activity folded into thought groups.
pub fn thread_page_view(
    thread: ThreadDetail,
    events: Vec<EventDetail>,
    shares: Vec<ShareDetail>,
    handoffs: Vec<HandoffDetail>,
    base_url: String,
    can_share_publicly: bool,
) -> (r: ThreadTemplate)
    ensures
        r.thread == thread,
        r.total_events == events@.len(),
        opt_seq(r.system_prompt) == system_prompt_of(events@),
        available_tools_are(
            events@,
            r.available_tools@.map_values(|t: ToolSummary| (t.name@, t.count as nat)),
        ),
        r.events@.map_values(|v: EventView| v.row()) == grouped(
            merged_events(listed_events(events@), listed_events(events@).len() as int),
        ),
        forall|i: int|
            0 <= i < r.events@.len() ==> if (#[trigger] r.events@[i]).is_thought_group {
                summary_is(r.events@[i].children@, opt_seq(r.events@[i].thought_summary))
            } else {
                r.events@[i].thought_summary is None
            },
        r.shares@ == shares@,
        r.handoffs@ == handoffs@,
        r.base_url@ == base_url@,
        r.can_share_publicly == can_share_publicly,
{
    let total_events = events.len();
    let system_prompt = extract_system_prompt(events.as_slice());
    let available_tools = extract_available_tools(events.as_slice());
    let listed = visible_events(events);
    let merged = merge_tool_results(listed);
    let rows = group_thought_events(merged);
    ThreadTemplate {
        thread,
        events: rows,
        total_events,
        system_prompt,
        available_tools,
        shares,
        handoffs,
        base_url,
        can_share_publicly,
    }
}

/// The search page for the query given (none searches for the empty text),
/// within one thread or across all.
pub fn search_page(query: Option<String>, thread_id: Option<String>, results: Vec<SearchResult>) -> (r: SearchTemplate)
    ensures
        r.query@ == match query {
            Some(q) => q@,
            None => Seq::empty(),
        },
        opt_seq(r.thread_id) == opt_seq(thread_id),
        r.results@ == results@,
{
    let query = match query {
        Some(q) => q,
        None => String::new(),
    };
    SearchTemplate { query, thread_id, results }
}

/// The password form of share `share_token`: without an error when first
/// shown, with `Incorrect password` after a wrong one.
pub fn share_password_page(share_token: String, after_wrong_password: bool) -> (r: SharePasswordTemplate)
    ensures
        r.share_token@ == share_token@,
        after_wrong_password ==> (r.error matches Some(e) && e@ == "Incorrect password"@),
        !after_wrong_password ==> r.error is None,
{
    let error = if after_wrong_password {
        Some(crate::text::owned("Incorrect password"))
    } else {
        None
    };
    SharePasswordTemplate { share_token, error }
}

/// The page showing a newly minted key.
pub fn key_created_page(key: GeneratedKey) -> (r: KeyCreatedTemplate)
    ensures
        r.client_id@ == key.client_id@,
        r.name@ == key.name@,
        r.plaintext_token@ == key.plaintext_token@,
        r.token_prefix@ == key.token_prefix@,
{
    KeyCreatedTemplate {
        client_id: key.client_id,
        name: key.name,
        plaintext_token: key.plaintext_token,
        token_prefix: key.token_prefix,
    }
}

} // verus!
