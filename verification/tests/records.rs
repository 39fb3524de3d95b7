use hub::cli::commands::{auth_status_lines, issue_token_name};
use hub::cli::config::Config;
use hub::json::{strip_nuls_json, Json};
use hub::vault::strip_nuls;
use hub::idempotency::{header_pairs, header_records, saved_status, HeaderPairRecord};
use hub::newsletter::confirm::{confirm_reply, confirm_step, ConfirmReply, ConfirmStep};
use hub::memory::engine::{conflict_from_reply, first_choice, ModelTask};
use hub::domain::subscriber_name::SubscriberName;
use hub::vault::backfill_args::{dry_run_report, files_to_import, import_report};
use hub::memory::listing::{most_recent_first, ListedMemory};
use hub::newsletter::admin::{list_window, newsletter_listing, ListSubscribersResponse, SubscriberResponse};
use hub::vault::api::{batch_blob_name, handoff_blob_name, redacted_snapshot, thread_url};
use hub::authentication::bearer_header;
use hub::vault::auth::lookup_token_hash;
use hub::vault::keys::{authenticated_client, issued_key_report, mint_api_key, revoke_client, ClientRow, GeneratedKey};
use hub::newsletter::api::{subscribe_decision, SubscribeStep};
use hub::queue::{extraction_pass_outcome, extraction_pass_step, ExecutionOutcome, ExtractionPass, UtcInstant};
use hub::pastebin::{
    check_form_paste, paste_created_reply, paste_detail, paste_summary, pastebin_admin_page,
    serves_plain_text, CreatePasteForm, PasteQuery, PasteRejection,
};
use hub::vault::pages::{
    key_created_page, listed_share_url, search_page, share_password_page, thread_page_view,
    ThreadDetail,
};
use hub::vault::web::EventDetail;
use hub::vault::shares::share_created_page;

fn memory(id: &str, updated_nanos: i128) -> ListedMemory {
    ListedMemory {
        id: id.to_string(),
        user_id: "u".to_string(),
        fact: format!("fact {id}"),
        created_at: "2024-01-01T00:00:00+00:00".to_string(),
        updated_at: "2024-01-01T00:00:00+00:00".to_string(),
        updated_nanos,
    }
}

#[test]
fn memories_are_listed_most_recent_first() {
    let listed = most_recent_first(vec![
        memory("a", 10),
        memory("b", 30),
        memory("c", 20),
        memory("d", 30),
        memory("e", 10),
    ]);
    let ids: Vec<&str> = listed.iter().map(|m| m.id.as_str()).collect();
    assert_eq!(ids, vec!["b", "d", "c", "a", "e"]);
    assert!(most_recent_first(vec![]).is_empty());
}

#[test]
fn saved_headers_come_back_unchanged() {
    let headers = vec![
        ("content-type".to_string(), b"application/json".to_vec()),
        ("x-raw".to_string(), vec![0u8, 159, 255, 10]),
        ("x-empty".to_string(), vec![]),
    ];
    let records = header_records(&headers);
    assert_eq!(records[0].value, "YXBwbGljYXRpb24vanNvbg==");
    assert_eq!(records[1].value, "AJ//Cg==");
    assert_eq!(records[2].value, "");
    assert_eq!(header_pairs(&records), headers);
}

#[test]
fn undecodable_header_values_read_as_empty() {
    let records = vec![HeaderPairRecord { name: "x".to_string(), value: "not base64!".to_string() }];
    assert_eq!(header_pairs(&records), vec![("x".to_string(), vec![])]);
}

#[test]
fn saved_status_codes_must_be_valid() {
    assert_eq!(saved_status(200), Some(200));
    assert_eq!(saved_status(999), Some(999));
    assert_eq!(saved_status(99), None);
    assert_eq!(saved_status(1000), None);
    assert_eq!(saved_status(-1), None);
}

#[test]
fn blob_names_follow_the_time_and_hash() {
    assert_eq!(
        batch_blob_name("2024-05-01T10:20:30+00:00", "0123456789ab"),
        "2024-05-01T102030+0000-0123456789ab.json"
    );
    assert_eq!(handoff_blob_name("hnd_1"), "hnd_1.json");
}

#[test]
fn the_redacted_snapshot_lists_each_event() {
    let rows = vec![
        ("user".to_string(), "message".to_string(), Some("hi".to_string()), None),
        ("assistant".to_string(), "message".to_string(), None, Some("t1".to_string())),
    ];
    assert_eq!(
        redacted_snapshot(&rows).to_compact(),
        "[{\"content\":\"hi\",\"created_at\":null,\"kind\":\"message\",\"role\":\"user\"},\
{\"content\":null,\"created_at\":\"t1\",\"kind\":\"message\",\"role\":\"assistant\"}]"
    );
}

#[test]
fn only_public_shares_list_a_link() {
    assert_eq!(
        listed_share_url("https://h/", "thr_1", "public"),
        Some("https://h/admin/threads/thr_1".to_string())
    );
    assert_eq!(listed_share_url("https://h", "thr_1", "secret-link"), None);
    assert_eq!(thread_url("https://h//", "thr_2"), "https://h/admin/threads/thr_2");
}

#[test]
fn the_share_created_page_shows_the_secret_url() {
    let page = share_created_page("https://h/", "thr_1", "tok");
    assert!(page.starts_with("<!doctype html><html lang=\"en\">"));
    assert!(page.contains("<p><a href=\"https://h/s/tok\">https://h/s/tok</a></p>"));
    assert!(page.contains("<a href=\"/admin/threads/thr_1\">Back to thread</a>"));
    assert!(page.ends_with("</body></html>"));
}

#[test]
fn auth_status_reports_the_configuration() {
    let config = Config {
        base_url: "https://h".to_string(),
        token: None,
        pi_thread_vault_memory_enabled: Some(true),
        ..Config::default()
    };
    assert_eq!(
        auth_status_lines(&config, None, "me"),
        vec![
            "base_url: https://h".to_string(),
            "token: missing".to_string(),
            "memory_enabled: true".to_string(),
            "memory_user_id: me".to_string(),
        ]
    );
    let lines = auth_status_lines(&Config::default(), Some("t".to_string()), "u");
    assert_eq!(lines[1], "token: configured");
    assert_eq!(lines[2], "memory_enabled: false");
}

#[test]
fn issued_token_names_are_trimmed() {
    assert_eq!(issue_token_name("  laptop "), Ok("laptop".to_string()));
    assert_eq!(issue_token_name("   "), Err("client name cannot be empty".to_string()));
}

#[test]
fn the_issued_key_report_shows_the_token_once() {
    let key = GeneratedKey {
        client_id: "clt_1".to_string(),
        name: "my \"laptop\"".to_string(),
        plaintext_token: "secret".to_string(),
        token_prefix: "secret".to_string(),
        created_at: "2024-01-01T00:00:00+00:00".to_string(),
    };
    let (lines, token) = issued_key_report(&key, "API key");
    assert_eq!(lines[0], "Issued API key for \"my \\\"laptop\\\"\"");
    assert_eq!(lines[1], "  client_id    clt_1");
    assert_eq!(lines[2], "  token_prefix secret");
    assert_eq!(lines[3], "  created_at   2024-01-01T00:00:00+00:00");
    assert_eq!(lines[4], "");
    assert_eq!(lines[5], "Copy the token below now \u{2014} it will not be shown again.");
    assert_eq!(lines[6], "");
    assert_eq!(lines.len(), 7);
    assert_eq!(token, "secret");
}

#[test]
fn cleaning_removes_every_nul_and_nothing_else() {
    let once = strip_nuls("a\0b\0\0c");
    assert_eq!(once, "abc");
    assert_eq!(strip_nuls(&once), once);
    assert_eq!(strip_nuls("clean"), "clean");
    let mut doc = Json::Object(vec![
        ("k\0".to_string(), Json::Array(vec![Json::Str("x\0y".to_string()), Json::Null])),
        ("n".to_string(), Json::Str("\0".to_string())),
    ]);
    strip_nuls_json(&mut doc);
    assert_eq!(doc.to_compact(), "{\"k\\u0000\":[\"xy\",null],\"n\":\"\"}");
    let first = doc.to_compact();
    strip_nuls_json(&mut doc);
    assert_eq!(doc.to_compact(), first);
}

#[test]
fn paste_refusals_carry_status_and_message() {
    assert_eq!(PasteRejection::Unauthorized.status(), 401);
    assert_eq!(PasteRejection::Empty.status(), 400);
    assert_eq!(PasteRejection::TooLarge.status(), 413);
    assert_eq!(PasteRejection::Empty.message(), "paste content is required");
    assert_eq!(PasteRejection::TooLarge.message(), "paste must be at most 256 KiB");
    assert_eq!(PasteRejection::Unauthorized.message(), "invalid or missing bearer token");
}

#[test]
fn form_pastes_must_be_non_empty_and_small() {
    let form = |c: String| CreatePasteForm { content: c };
    assert_eq!(check_form_paste(&form(String::new())), Err(PasteRejection::Empty));
    assert_eq!(check_form_paste(&form("x".repeat(262_144))), Ok(()));
    assert_eq!(check_form_paste(&form("x".repeat(262_145))), Err(PasteRejection::TooLarge));
    assert_eq!(check_form_paste(&form("\u{e9}".repeat(131_073))), Err(PasteRejection::TooLarge));
}

#[test]
fn pastes_are_summarised_and_detailed() {
    let summary = paste_summary("https://h/", "abc".to_string(), "one\ntwo\n", "t".to_string(), "T".to_string());
    assert_eq!(summary.public_url, "https://h/p/abc");
    assert_eq!(summary.size_bytes, 8);
    assert_eq!(summary.line_count, 2);
    assert_eq!(summary.preview, "one two");
    let detail = paste_detail("https://h", "abc".to_string(), String::new(), "t".to_string(), "T".to_string());
    assert_eq!(detail.raw_url, "/p/abc?raw=1");
    assert_eq!(detail.line_count, 1);
    assert_eq!(detail.size_bytes, 0);
    assert_eq!(paste_created_reply("https://h/", "abc"), "https://h/p/abc\n");
    assert_eq!(pastebin_admin_page(vec![summary]).max_paste_kb, 256);
}

#[test]
fn raw_pastes_are_served_as_plain_text() {
    let raw = PasteQuery { raw: Some("1".to_string()) };
    let plain = PasteQuery { raw: None };
    assert!(serves_plain_text(&raw, Some("Mozilla/5.0"), Some("text/html")));
    assert!(!serves_plain_text(&plain, Some("Mozilla/5.0"), Some("text/html")));
    assert!(serves_plain_text(&plain, Some("curl/8.0"), None));
}

fn thread() -> ThreadDetail {
    ThreadDetail {
        id: "thr_1".to_string(),
        external_session_id: "s".to_string(),
        title: Some("rendering".to_string()),
        cwd: None,
        repo_remote: None,
        repo_branch: None,
        repo_head: None,
        default_visibility: "private".to_string(),
        created_at: "c".to_string(),
        created_at_display: "C".to_string(),
        updated_at: "u".to_string(),
        updated_at_display: "U".to_string(),
    }
}

fn page_event(id: &str, role: &str, kind: &str, content: &str) -> EventDetail {
    EventDetail {
        id: id.to_string(),
        external_event_id: None,
        parent_external_event_id: None,
        role: role.to_string(),
        kind: kind.to_string(),
        content: Some(content.to_string()),
        display_content: Some(content.to_string()),
        tool_label: None,
        metadata_json: "{}".to_string(),
        created_at: None,
        inserted_at: "2026-01-01T00:00:00Z".to_string(),
        timestamp_display: String::new(),
        tool_result_content: None,
        tool_result_metadata_json: None,
        tool_result_is_error: false,
    }
}

#[test]
fn thread_pages_show_events_prompt_and_tools() {
    let events = vec![
        page_event("e0", "system", "system_prompt", "be brief"),
        page_event(
            "e1",
            "system",
            "tools_snapshot",
            "[{\"name\":\"0\"},{\"name\":\"1\"},{\"name\":\"bash\"},{\"name\":\"read\"}]",
        ),
        page_event("e2", "user", "message", "websocket reconnection logic"),
        page_event("e3", "assistant", "message", "done"),
    ];
    let page = thread_page_view(thread(), events, vec![], vec![], "https://h".to_string(), true);
    assert_eq!(page.total_events, 4);
    assert_eq!(page.system_prompt, Some("be brief".to_string()));
    let tools: Vec<&str> = page.available_tools.iter().map(|t| t.name.as_str()).collect();
    assert_eq!(tools, vec!["bash", "read"]);
    let shown: Vec<&str> = page.events.iter().map(|v| v.event.id.as_str()).collect();
    assert_eq!(shown, vec!["e2", "e3"]);
    assert_eq!(page.events[0].event.content.as_deref(), Some("websocket reconnection logic"));
    assert_eq!(page.thread.title.as_deref(), Some("rendering"));
    assert!(page.can_share_publicly);
}

#[test]
fn small_pages_are_filled_in() {
    let s = search_page(None, Some("thr_1".to_string()), vec![]);
    assert_eq!(s.query, "");
    assert_eq!(s.thread_id.as_deref(), Some("thr_1"));
    assert_eq!(share_password_page("tok".to_string(), true).error.as_deref(), Some("Incorrect password"));
    assert_eq!(share_password_page("tok".to_string(), false).error, None);
    let key = GeneratedKey {
        client_id: "clt_1".to_string(),
        name: "laptop".to_string(),
        plaintext_token: "secret".to_string(),
        token_prefix: "secret".to_string(),
        created_at: "now".to_string(),
    };
    let page = key_created_page(key);
    assert_eq!(page.plaintext_token, "secret");
    assert_eq!(page.name, "laptop");
}

#[test]
fn a_minted_token_is_looked_up_by_its_stored_hash() {
    let (key, hash) = mint_api_key("laptop", "now".to_string()).unwrap();
    let header = bearer_header(&key.plaintext_token);
    assert_eq!(lookup_token_hash(Some(&header)), Some(hash));
    assert_eq!(lookup_token_hash(None), None);
    assert_eq!(lookup_token_hash(Some(&key.plaintext_token)), None);
    assert_eq!(lookup_token_hash(Some("Bearer ptv_short")), None);
}

#[test]
fn the_subscriber_listing_counts_pages() {
    let sub = SubscriberResponse {
        id: "id".to_string(),
        email: "a@b.c".to_string(),
        name: None,
        status: "confirmed".to_string(),
        subscribed_at: "t".to_string(),
    };
    let r = ListSubscribersResponse::from_page(vec![sub], 51, list_window(Some(2), None));
    assert_eq!((r.total, r.page, r.per_page, r.total_pages), (51, 2, 25, 3));
    assert_eq!(r.subscribers.len(), 1);
    let empty = ListSubscribersResponse::from_page(vec![], 0, list_window(None, Some(500)));
    assert_eq!((empty.per_page, empty.total_pages), (100, 0));
}

#[test]
fn published_issues_are_listed_without_delivered_counts() {
    let r = newsletter_listing(vec![
        ("n1".to_string(), "First".to_string(), "t1".to_string(), 3, 1),
        ("n2".to_string(), "Second".to_string(), "t2".to_string(), 0, 0),
    ]);
    assert_eq!(r.total, 2);
    assert_eq!(r.newsletters[0].title, "First");
    assert_eq!((r.newsletters[0].delivered, r.newsletters[0].pending, r.newsletters[0].failed), (0, 3, 1));
    assert_eq!(r.newsletters[1].newsletter_issue_id, "n2");
    assert_eq!(newsletter_listing(vec![]).total, 0);
}

#[test]
fn confirming_is_idempotent() {
    assert_eq!(confirm_step(Some("pending_confirmation")), ConfirmStep::MarkConfirmed);
    assert_eq!(confirm_step(Some("confirmed")), ConfirmStep::AlreadyConfirmed);
    assert_eq!(confirm_step(None), ConfirmStep::Missing);
    assert_eq!(confirm_reply(false, Ok(None), Ok(())), ConfirmReply::BadTokenFormat);
    assert_eq!(confirm_reply(true, Ok(None), Ok(())), ConfirmReply::UnknownToken);
    assert_eq!(confirm_reply(true, Err(()), Ok(())), ConfirmReply::Failed);
    assert_eq!(confirm_reply(true, Ok(Some(ConfirmStep::Missing)), Ok(())), ConfirmReply::Failed);
    assert_eq!(confirm_reply(true, Ok(Some(ConfirmStep::AlreadyConfirmed)), Err(())), ConfirmReply::Confirmed);
    assert_eq!(confirm_reply(true, Ok(Some(ConfirmStep::MarkConfirmed)), Ok(())), ConfirmReply::Confirmed);
    assert_eq!(confirm_reply(true, Ok(Some(ConfirmStep::MarkConfirmed)), Err(())), ConfirmReply::Failed);
    assert_eq!(ConfirmReply::Confirmed.status(), 200);
    assert_eq!(ConfirmReply::UnknownToken.status(), 400);
    assert_eq!(ConfirmReply::Failed.message(), "Failed to confirm subscription. Please try again later.");
}

fn client(id: &str, hash: &str, revoked: Option<&str>) -> ClientRow {
    ClientRow { id: id.to_string(), api_token_hash: hash.to_string(), revoked_at: revoked.map(str::to_string) }
}

#[test]
fn a_revoked_key_no_longer_authenticates() {
    let id = "clt_0123456789abcdef0123456789abcdef";
    let other = "clt_ffffffffffffffffffffffffffffffff";
    let rows = vec![client(id, "sha256:a", None), client(other, "sha256:b", None)];
    assert_eq!(authenticated_client(&rows, "sha256:a"), Some(id.to_string()));
    let (rows, result) = revoke_client(rows, id.to_string(), "now");
    assert_eq!(result, Ok(true));
    assert_eq!(rows.len(), 2);
    assert_eq!(rows[0].revoked_at.as_deref(), Some("now"));
    assert_eq!(authenticated_client(&rows, "sha256:a"), None);
    assert_eq!(authenticated_client(&rows, "sha256:b"), Some(other.to_string()));
    let (rows, again) = revoke_client(rows, id.to_string(), "later");
    assert_eq!(again, Ok(false));
    assert_eq!(rows[0].revoked_at.as_deref(), Some("now"));
    let (rows, bad) = revoke_client(rows, "nope".to_string(), "now");
    assert_eq!(bad, Err("ApiClientId must start with clt_".to_string()));
    assert_eq!(rows[1].revoked_at, None);
}

#[test]
fn the_subscribe_endpoint_checks_name_then_address() {
    let ok = Ok(());
    let bad_email = || Err("not-an-email is not a valid subscriber email".to_string());
    assert_eq!(
        subscribe_decision(Some("a/b".to_string()), bad_email(), None),
        Err("a/b is not a valid subscriber name".to_string())
    );
    assert_eq!(
        subscribe_decision(Some("Ursula".to_string()), bad_email(), None),
        Err("not-an-email is not a valid subscriber email".to_string())
    );
    assert_eq!(subscribe_decision(None, ok.clone(), None), Ok(SubscribeStep::CreateSubscriber));
    assert_eq!(subscribe_decision(Some(" ".to_string()), ok.clone(), Some("confirmed")), Ok(SubscribeStep::AlreadySubscribed));
    assert_eq!(
        subscribe_decision(Some("le guin".to_string()), ok, Some("pending_confirmation")),
        Ok(SubscribeStep::ResendConfirmation)
    );
}

#[test]
fn the_extraction_pass_runs_only_a_due_job() {
    let at = |secs: i64| UtcInstant { secs, nanos: 0 };
    assert_eq!(extraction_pass_step(None, at(100)), ExtractionPass::Idle);
    assert_eq!(extraction_pass_step(Some((0, None)), at(100)), ExtractionPass::RunJob);
    assert_eq!(extraction_pass_step(Some((1, Some(at(100)))), at(159)), ExtractionPass::Idle);
    assert_eq!(extraction_pass_step(Some((1, Some(at(100)))), at(160)), ExtractionPass::RunJob);
    assert_eq!(extraction_pass_outcome(ExtractionPass::Idle), ExecutionOutcome::EmptyQueue);
    assert_eq!(extraction_pass_outcome(ExtractionPass::RunJob), ExecutionOutcome::TaskCompleted);
}

#[test]
fn ascii_names_count_one_grapheme_per_character() {
    assert!(matches!(SubscriberName::parse(Some("a".repeat(256))), Ok(Some(_))));
    assert!(SubscriberName::parse(Some("a".repeat(257))).is_err());
    assert!(matches!(SubscriberName::parse(Some("\u{451}".repeat(256))), Ok(Some(_))));
}

#[test]
fn backfill_runs_are_limited_and_reported() {
    let files = vec!["a".to_string(), "b".to_string(), "c".to_string()];
    assert_eq!(files_to_import(files.clone(), Some(2)), Ok(vec!["a".to_string(), "b".to_string()]));
    assert_eq!(files_to_import(files.clone(), None), Ok(files.clone()));
    assert_eq!(files_to_import(files, Some(0)), Err("no Pi session JSONL files found".to_string()));
    assert_eq!(files_to_import(vec![], Some(5)), Err("no Pi session JSONL files found".to_string()));
    assert_eq!(dry_run_report(2, 17, "hub"), "would import 2 sessions and 17 events into hub");
    assert_eq!(import_report(3, 0, "hub"), "imported/scanned 3 sessions; accepted 0 new events into hub");
}

#[test]
fn model_replies_need_a_choice_and_a_readable_verdict() {
    assert_eq!(first_choice(vec![], ModelTask::Extraction), Err("No choices in extraction response".to_string()));
    assert_eq!(
        first_choice(vec![], ModelTask::ConflictResolution),
        Err("No choices in conflict resolution response".to_string())
    );
    assert_eq!(first_choice(vec!["x".to_string(), "y".to_string()], ModelTask::Extraction), Ok("x".to_string()));
    assert_eq!(
        conflict_from_reply("```json\n{oops}\n```", Err("key must be a string".to_string())).unwrap_err(),
        "Failed to parse conflict resolution response: key must be a string \u{2014} raw: {oops}"
    );
    assert!(conflict_from_reply("{}", Ok(("keep_both".to_string(), None))).is_ok());
    assert_eq!(
        conflict_from_reply("{}", Ok(("update".to_string(), None))).unwrap_err(),
        "Update action requires merged_fact field"
    );
}
