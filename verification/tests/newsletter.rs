use hub::newsletter::admin::{
    list_window, preview_newsletter, search_pattern, total_pages, ListWindow, PreviewData,
    StatsResponse,
};
use hub::newsletter::api::{publish_token_accepted, subscribe_status, subscribe_step, SubscribeStep};

#[test]
fn listing_defaults_to_the_first_page_of_25() {
    assert_eq!(list_window(None, None), ListWindow { page: 1, per_page: 25, offset: 0 });
}

#[test]
fn listing_clamps_page_and_size() {
    assert_eq!(list_window(Some(0), Some(0)), ListWindow { page: 1, per_page: 1, offset: 0 });
    assert_eq!(list_window(Some(-4), Some(500)), ListWindow { page: 1, per_page: 100, offset: 0 });
    assert_eq!(list_window(Some(3), Some(10)), ListWindow { page: 3, per_page: 10, offset: 20 });
}

#[test]
fn total_pages_rounds_up() {
    assert_eq!(total_pages(0, 25), 0);
    assert_eq!(total_pages(1, 25), 1);
    assert_eq!(total_pages(25, 25), 1);
    assert_eq!(total_pages(26, 25), 2);
    assert_eq!(total_pages(101, 100), 2);
}

#[test]
fn searches_match_anywhere() {
    assert_eq!(search_pattern(Some("ann")), Some("%ann%".to_string()));
    assert_eq!(search_pattern(None), None);
}

#[test]
fn stats_keep_each_count_in_its_place() {
    let s = StatsResponse::from_counts(10, 7, 3, 4, 1, 2, 5);
    assert_eq!(s.subscribers.total, 10);
    assert_eq!(s.subscribers.confirmed, 7);
    assert_eq!(s.subscribers.pending, 3);
    assert_eq!(s.delivery_queue.pending, 4);
    assert_eq!(s.delivery_queue.retrying, 1);
    assert_eq!(s.dead_letter_queue, 2);
    assert_eq!(s.newsletters_sent, 5);
}

#[test]
fn the_preview_escapes_the_title_but_not_the_body() {
    let page = preview_newsletter(&PreviewData {
        title: "Tom & Jerry's <news>".to_string(),
        html: "<p>Hi</p>".to_string(),
    });
    assert!(page.starts_with("<!DOCTYPE html>\n<html><head><title>Preview: Tom &amp; Jerry&#x27;s &lt;news&gt;</title>"));
    assert!(page.contains("<h1>Tom &amp; Jerry&#x27;s &lt;news&gt;</h1>\n<hr>\n<p>Hi</p>\n</body></html>"));
    assert!(page.contains("&#9888; Preview — this has not been sent"));
    assert!(page.ends_with("</body></html>"));
}

#[test]
fn publishing_needs_the_bearer_token() {
    assert!(publish_token_accepted(Some("Bearer t0k"), "t0k"));
    assert!(!publish_token_accepted(Some("Bearer t0"), "t0k"));
    assert!(!publish_token_accepted(Some("t0k"), "t0k"));
    assert!(!publish_token_accepted(None, "t0k"));
}

#[test]
fn subscribing_depends_on_the_stored_status() {
    assert_eq!(subscribe_step(None), SubscribeStep::CreateSubscriber);
    assert_eq!(subscribe_step(Some("confirmed")), SubscribeStep::AlreadySubscribed);
    assert_eq!(subscribe_step(Some("pending_confirmation")), SubscribeStep::ResendConfirmation);
    assert_eq!(subscribe_status(SubscribeStep::CreateSubscriber), "confirmation_sent");
    assert_eq!(subscribe_status(SubscribeStep::ResendConfirmation), "confirmation_resent");
    assert_eq!(subscribe_status(SubscribeStep::AlreadySubscribed), "subscribed");
}
