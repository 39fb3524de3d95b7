//! Admin side of the newsletter: the subscriber listing window, the
//! dashboard statistics and the preview of an issue.

use vstd::prelude::*;
use crate::text::concat3;
use crate::primitives::{encode_minimal, html_minimal};

verus! {

/// Query parameters of the subscriber listing.
#[derive(Debug, Clone)]
pub struct ListParams {
    pub page: Option<i64>,
    pub per_page: Option<i64>,
    pub search: Option<String>,
    pub status: Option<String>,
}

/// The page that is shown: the requested one, at least 1 (default 1).
pub open spec fn effective_page(page: Option<i64>) -> int {
    let p = match page {
        Some(p) => p as int,
        None => 1,
    };
    if p < 1 {
        1
    } else {
        p
    }
}

/// Rows per page: the requested number clamped to 1..=100 (default 25).
pub open spec fn effective_per_page(per_page: Option<i64>) -> int {
    let n = match per_page {
        Some(n) => n as int,
        None => 25,
    };
    if n < 1 {
        1
    } else if n > 100 {
        100
    } else {
        n
    }
}

/// Page, page size and row offset of a listing request.
#[derive(Debug, Clone, Copy, PartialEq, Eq)]
pub struct ListWindow {
    pub page: i64,
    pub per_page: i64,
    pub offset: i64,
}

/// The listing window for the requested page and page size; the offset skips
/// the rows of the earlier pages.
pub fn list_window(page: Option<i64>, per_page: Option<i64>) -> (w: ListWindow)
    requires
        (effective_page(page) - 1) * effective_per_page(per_page) <= i64::MAX,
    ensures
        w.page == effective_page(page),
        w.per_page == effective_per_page(per_page),
        w.offset == (w.page - 1) * w.per_page,
        1 <= w.per_page <= 100,
        w.page >= 1,
{
    let p = match page {
        Some(p) => p,
        None => 1,
    };
    let p = if p < 1 {
        1
    } else {
        p
    };
    let n = match per_page {
        Some(n) => n,
        None => 25,
    };
    let n = if n < 1 {
        1
    } else if n > 100 {
        100
    } else {
        n
    };
    let offset = (p - 1) * n;
    ListWindow { page: p, per_page: n, offset }
}

/// The `ILIKE` pattern of a search term: the term between two `%`.
pub fn search_pattern(search: Option<&str>) -> (r: Option<String>)
    ensures
        match search {
            Some(s) => r matches Some(p) && p@ == "%"@ + s@ + "%"@,
            None => r is None,
        },
{
    match search {
        Some(s) => Some(concat3("%", s, "%")),
        None => None,
    }
}

/// Number of pages needed for `total` rows: `total / per_page` rounded up.
pub fn total_pages(total: i64, per_page: i64) -> (r: i64)
    requires
        total >= 0,
        1 <= per_page <= 100,
        total + per_page - 1 <= i64::MAX,
    ensures
        r == (total + per_page - 1) / (per_page as int),
        r * per_page >= total,
        (r - 1) * per_page < total || r == 0,
{
    let r = (total + (per_page - 1)) / per_page;
    assert(r * per_page >= total && ((r - 1) * per_page < total || r == 0)) by (nonlinear_arith)
        requires
            total >= 0,
            per_page >= 1,
            r == (total + per_page - 1) / (per_page as int),
    ;
    r
}

/// A subscriber as the listing shows it.
#[derive(Debug, Clone)]
pub struct SubscriberResponse {
    pub id: String,
    pub email: String,
    pub name: Option<String>,
    pub status: String,
    pub subscribed_at: String,
}

/// One page of the subscriber listing, with the count of all matching
/// subscribers and of pages.
#[derive(Debug, Clone)]
pub struct ListSubscribersResponse {
    pub subscribers: Vec<SubscriberResponse>,
    pub total: i64,
    pub page: i64,
    pub per_page: i64,
    pub total_pages: i64,
}

impl ListSubscribersResponse {
    /// The reply for the rows of window `window` out of `total` matching
    /// subscribers.
    pub fn from_page(subscribers: Vec<SubscriberResponse>, total: i64, window: ListWindow) -> (r: Self)
        requires
            total >= 0,
            1 <= window.per_page <= 100,
            total + window.per_page - 1 <= i64::MAX,
        ensures
            r.subscribers@ == subscribers@,
            r.total == total,
            r.page == window.page,
            r.per_page == window.per_page,
            r.total_pages == (total + window.per_page - 1) / (window.per_page as int),
    {
        let total_pages = total_pages(total, window.per_page);
        ListSubscribersResponse {
            subscribers,
            total,
            page: window.page,
            per_page: window.per_page,
            total_pages,
        }
    }
}

/// A published issue in the admin listing, with its delivery counts.
#[derive(Debug, Clone)]
pub struct NewsletterSummary {
    pub newsletter_issue_id: String,
    pub title: String,
    pub published_at: String,
    pub delivered: i64,
    pub pending: i64,
    pub failed: i64,
}

/// The admin listing of published issues.
#[derive(Debug, Clone)]
pub struct NewsletterListResponse {
    pub newsletters: Vec<NewsletterSummary>,
    pub total: i64,
}

/// A published issue as read back row by row: id, title, publication time,
/// deliveries still queued, deliveries dead-lettered.
pub type IssueRow = (String, String, String, i64, i64);

/// The listing of published issues: one summary per row, in order, and their
/// number. Deliveries that went out are not recorded, so `delivered` is 0.
pub fn newsletter_listing(rows: Vec<IssueRow>) -> (r: NewsletterListResponse)
    requires
        rows@.len() <= i64::MAX,
    ensures
        r.total == rows@.len(),
        r.newsletters@.len() == rows@.len(),
        forall|i: int|
            0 <= i < rows@.len() ==> {
                let n = #[trigger] r.newsletters@[i];
                &&& n.newsletter_issue_id@ == rows@[i].0@
                &&& n.title@ == rows@[i].1@
                &&& n.published_at@ == rows@[i].2@
                &&& n.delivered == 0
                &&& n.pending == rows@[i].3
                &&& n.failed == rows@[i].4
            },
{
    let len: usize = rows.len();
    let total = len as i64;
    let ghost all = rows@;
    let mut rest = rows;
    let mut out: Vec<NewsletterSummary> = Vec::new();
    let mut n: usize = 0;
    while rest.len() > 0
        invariant
            n + rest@.len() == all.len(),
            all.len() == len,
            rest@ == all.skip(n as int),
            out@.len() == n,
            forall|i: int|
                0 <= i < n ==> {
                    let s = #[trigger] out@[i];
                    &&& s.newsletter_issue_id@ == all[i].0@
                    &&& s.title@ == all[i].1@
                    &&& s.published_at@ == all[i].2@
                    &&& s.delivered == 0
                    &&& s.pending == all[i].3
                    &&& s.failed == all[i].4
                },
        decreases rest@.len(),
    {
        let (id, title, published_at, pending, failed) = rest.remove(0);
        assert(rest@ =~= all.skip(n + 1));
        out.push(NewsletterSummary { newsletter_issue_id: id, title, published_at, delivered: 0, pending, failed });
        n = n + 1;
    }
    NewsletterListResponse { newsletters: out, total }
}

/// One issue as the admin API shows it.
#[derive(Debug, Clone)]
pub struct NewsletterDetail {
    pub newsletter_issue_id: String,
    pub title: String,
    pub text_content: String,
    pub html_content: String,
    pub published_at: String,
}

/// A delivery given up on, as the dead-letter listing shows it.
#[derive(Debug, Clone)]
pub struct DeadLetterEntry {
    pub newsletter_issue_id: String,
    pub newsletter_title: Option<String>,
    pub subscriber_email: String,
    pub attempt_count: i32,
    pub last_error: String,
    pub failed_at: String,
}

/// The dead-letter listing and the number of dead letters.
#[derive(Debug, Clone)]
pub struct DeadLettersResponse {
    pub entries: Vec<DeadLetterEntry>,
    pub total: i64,
}

/// Subscriber counts of the dashboard.
#[derive(Debug, Clone, Copy, PartialEq, Eq)]
pub struct SubscriberStats {
    pub total: i64,
    pub confirmed: i64,
    pub pending: i64,
}

/// Delivery-queue counts of the dashboard: never tried, and retrying.
#[derive(Debug, Clone, Copy, PartialEq, Eq)]
pub struct DeliveryQueueStats {
    pub pending: i64,
    pub retrying: i64,
}

/// Everything the admin statistics endpoint reports.
#[derive(Debug, Clone, Copy, PartialEq, Eq)]
pub struct StatsResponse {
    pub subscribers: SubscriberStats,
    pub delivery_queue: DeliveryQueueStats,
    pub dead_letter_queue: i64,
    pub newsletters_sent: i64,
}

impl StatsResponse {
    /// Assembles the report from the seven counts, in the order the endpoint
    /// queries them.
    pub fn from_counts(
        total_subscribers: i64,
        confirmed_subscribers: i64,
        pending_subscribers: i64,
        queue_pending: i64,
        queue_retrying: i64,
        dead_letters: i64,
        newsletters_sent: i64,
    ) -> (r: Self)
        ensures
            r.subscribers.total == total_subscribers,
            r.subscribers.confirmed == confirmed_subscribers,
            r.subscribers.pending == pending_subscribers,
            r.delivery_queue.pending == queue_pending,
            r.delivery_queue.retrying == queue_retrying,
            r.dead_letter_queue == dead_letters,
            r.newsletters_sent == newsletters_sent,
    {
        StatsResponse {
            subscribers: SubscriberStats {
                total: total_subscribers,
                confirmed: confirmed_subscribers,
                pending: pending_subscribers,
            },
            delivery_queue: DeliveryQueueStats { pending: queue_pending, retrying: queue_retrying },
            dead_letter_queue: dead_letters,
            newsletters_sent,
        }
    }
}

/// The form of a newsletter preview.
#[derive(Debug, Clone)]
pub struct PreviewData {
    pub title: String,
    pub html: String,
}

/// The page that previews a newsletter: the title entity-encoded in the page
/// title and heading, the HTML body as given.
pub open spec fn preview_page(title: Seq<char>, html: Seq<char>) -> Seq<char> {
    let t = html_minimal(title);
    "<!DOCTYPE html>\n<html><head><title>Preview: "@ + t
        + "</title>\n<style>body { font-family: sans-serif; max-width: 600px; margin: 2rem auto; padding: 1rem; }</style>\n</head><body>\n<p style=\"color:#999;font-size:12px;margin-bottom:1rem\">&#9888; Preview — this has not been sent</p>\n<h1>"@
        + t + "</h1>\n<hr>\n"@ + html + "\n</body></html>"@
}

/// Renders the preview page of a newsletter.
pub fn preview_newsletter(data: &PreviewData) -> (r: String)
    ensures
        r@ == preview_page(data.title@, data.html@),
{
    let t = encode_minimal(data.title.as_str());
    let a = concat3("<!DOCTYPE html>\n<html><head><title>Preview: ", t.as_str(), "</title>\n<style>body { font-family: sans-serif; max-width: 600px; margin: 2rem auto; padding: 1rem; }</style>\n</head><body>\n<p style=\"color:#999;font-size:12px;margin-bottom:1rem\">&#9888; Preview — this has not been sent</p>\n<h1>");
    let b = concat3(a.as_str(), t.as_str(), "</h1>\n<hr>\n");
    concat3(b.as_str(), data.html.as_str(), "\n</body></html>")
}

} // verus!
