use hub::cli::commands::{context_thread_id, current_thread_lines, reusable_share_url, with_share_url};
use hub::domain::paste::PasteContent;
use hub::json::Json;
use hub::vault::api::{
    derive_thread_title, ingest_title, sanitize_batch, sanitize_handoff, short_hash,
    source_event_ids_json, tally_insert, thread_url, BatchPayload, EventPayload, HandoffPayload,
    SessionPayload,
};
use hub::vault::backfill::event_row;
use hub::vault::session_import::EventImport;
use hub::vault::shares::{share_access, ShareAccess};

fn payload_event(role: &str, content: Option<&str>) -> EventPayload {
    EventPayload {
        external_event_id: Some("e\0".to_string()),
        parent_external_event_id: None,
        event_hash: "h\0".to_string(),
        role: role.to_string(),
        kind: "message".to_string(),
        content: content.map(str::to_string),
        metadata: Json::Object(vec![("k".to_string(), Json::Str("v\0".to_string()))]),
        created_at: None,
    }
}

#[test]
fn batches_lose_their_nul_characters() {
    let mut batch = BatchPayload {
        client_id: "c\0".to_string(),
        session: SessionPayload {
            external_session_id: "s\0".to_string(),
            title: Some("t\0".to_string()),
            cwd: None,
            repo_remote: None,
            repo_branch: None,
            repo_head: None,
        },
        events: vec![payload_event("user", Some("hi\0"))],
    };
    sanitize_batch(&mut batch);
    assert_eq!(batch.client_id, "c\0");
    assert_eq!(batch.session.external_session_id, "s");
    assert_eq!(batch.session.title, Some("t".to_string()));
    assert_eq!(batch.events[0].content, Some("hi".to_string()));
    assert_eq!(batch.events[0].external_event_id, Some("e".to_string()));
    assert_eq!(batch.events[0].event_hash, "h");
    assert_eq!(batch.events[0].metadata.to_compact(), "{\"k\":\"v\"}");
}

#[test]
fn handoffs_lose_their_nul_characters() {
    let mut h = HandoffPayload {
        source_thread_id: "t\0".to_string(),
        target_external_session_id: Some("x\0".to_string()),
        goal: "g\0".to_string(),
        generated_prompt: "p\0".to_string(),
        source_event_ids: vec!["a\0".to_string(), "b".to_string()],
    };
    sanitize_handoff(&mut h);
    assert_eq!(h.source_thread_id, "t");
    assert_eq!(h.target_external_session_id, Some("x".to_string()));
    assert_eq!(h.goal, "g");
    assert_eq!(h.generated_prompt, "p");
    assert_eq!(h.source_event_ids, vec!["a".to_string(), "b".to_string()]);
}

#[test]
fn thread_titles_prefer_the_batch_title_then_user_words() {
    let events = vec![
        payload_event("assistant", Some("assistant words")),
        payload_event("user", Some("  ")),
        payload_event("user", Some("# Fix login")),
    ];
    assert_eq!(derive_thread_title(&events), Some("Fix login".to_string()));
    assert_eq!(ingest_title(&Some("Given".to_string()), &events), Some("Given".to_string()));
    assert_eq!(ingest_title(&None, &events), Some("Fix login".to_string()));
    let no_user = vec![payload_event("assistant", Some("assistant words"))];
    assert_eq!(derive_thread_title(&no_user), Some("assistant words".to_string()));
    assert_eq!(derive_thread_title(&[]), None);
}

#[test]
fn inserts_are_tallied() {
    assert_eq!(tally_insert(3, 1, 1), (4, 1));
    assert_eq!(tally_insert(3, 1, 0), (3, 2));
}

#[test]
fn thread_addresses_and_blob_names() {
    assert_eq!(thread_url("https://h//", "thr_1"), "https://h/admin/threads/thr_1");
    assert_eq!(short_hash(b"abc"), "ba7816bf8f01");
    assert_eq!(
        source_event_ids_json(&vec!["a".to_string(), "b\"c".to_string()]),
        "[\"a\",\"b\\\"c\"]"
    );
    assert_eq!(source_event_ids_json(&vec![]), "[]");
}

#[test]
fn imported_events_become_rows() {
    let event = EventImport {
        external_event_id: "e\0".to_string(),
        parent_external_event_id: Some("p".to_string()),
        role: "user".to_string(),
        kind: "message".to_string(),
        content: Some("hi\0".to_string()),
        metadata: Json::Object(vec![("x".to_string(), Json::Str("y\0".to_string()))]),
        created_at: None,
    };
    let row = event_row("sess", "2026-01-02T00:00:00Z", &event);
    assert_eq!(row.external_event_id, "e");
    assert_eq!(row.content, Some("hi".to_string()));
    assert_eq!(row.metadata_json, "{\"x\":\"y\"}");
    assert_eq!(row.inserted_at, "2026-01-02T00:00:00Z");
    assert_eq!(row.event_hash, hub::vault::backfill::event_hash("sess", &event));
}

fn context() -> Json {
    Json::Object(vec![
        ("threadId".to_string(), Json::Str("thr_1".to_string())),
        ("threadUrl".to_string(), Json::Str("https://h/admin/threads/thr_1".to_string())),
        ("publicUrl".to_string(), Json::Str("https://h/t/thr_1".to_string())),
    ])
}

#[test]
fn the_thread_context_is_read() {
    let ctx = context();
    assert_eq!(context_thread_id(&ctx), Ok("thr_1".to_string()));
    assert_eq!(
        context_thread_id(&Json::Object(vec![])),
        Err("current thread context does not contain threadId".to_string())
    );
    assert_eq!(
        current_thread_lines(&ctx),
        vec![
            "thread_id: thr_1".to_string(),
            "thread_url: https://h/admin/threads/thr_1".to_string(),
            "share_url: https://h/t/thr_1".to_string(),
        ]
    );
    assert_eq!(reusable_share_url(&ctx), None);
    let shared = with_share_url(ctx, "https://h/s/tok");
    assert_eq!(reusable_share_url(&shared), Some("https://h/s/tok".to_string()));
    assert_eq!(
        shared.to_compact(),
        "{\"threadId\":\"thr_1\",\"threadUrl\":\"https://h/admin/threads/thr_1\",\"publicUrl\":\"https://h/s/tok\",\"shareUrl\":\"https://h/s/tok\"}"
    );
    let again = with_share_url(shared, "https://h/s/new");
    assert_eq!(reusable_share_url(&again), Some("https://h/s/new".to_string()));
}

#[test]
fn shares_are_shown_unless_revoked_or_locked() {
    assert_eq!(share_access(true, "public", None, "shr_1", "k"), ShareAccess::Gone);
    assert_eq!(share_access(false, "secret-link", None, "shr_1", "k"), ShareAccess::Show);
    assert_eq!(share_access(false, "password-protected", None, "shr_1", "k"), ShareAccess::AskPassword);
}

#[test]
fn paste_content_can_be_taken_back() {
    let c = PasteContent::parse("body".to_string()).unwrap();
    assert_eq!(c.into_string(), "body");
}
