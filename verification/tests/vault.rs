use hub::json::Json;
use hub::vault::auth::{sign, verify_signature};
use hub::vault::backfill::{
    build_session, cwd_from_dir_name, derive_title, event_hash, expand_tilde, latest_event_time,
    session_id_from_stem, session_supported, split_session_lines, timestamp_from_filename,
};
use hub::vault::backfill_args::{parse_args, BackfillArgs, BackfillInvocation};
use hub::vault::keys::{generate_token, mint_api_key, parse_name, ClientNameArgs};
use hub::vault::repo::{jj_remote_of, repo_info, JjState};
use hub::vault::search::{like_needle, search_runs};
use hub::vault::session_import::{events_from_entries, extract_text, summarize_entry, EventImport};
use hub::vault::titles::{compact_title, has_words};
use hub::vault::{new_id, strip_nuls, strip_nuls_opt, token_hash};

fn s(v: &str) -> Json {
    Json::Str(v.to_string())
}

fn obj(members: Vec<(&str, Json)>) -> Json {
    Json::Object(members.into_iter().map(|(k, v)| (k.to_string(), v)).collect())
}

fn args(items: &[&str]) -> Vec<String> {
    items.iter().map(|x| x.to_string()).collect()
}

fn user_event(content: &str) -> EventImport {
    EventImport {
        external_event_id: "e1".to_string(),
        parent_external_event_id: None,
        role: "user".to_string(),
        kind: "message".to_string(),
        content: Some(content.to_string()),
        metadata: Json::Null,
        created_at: None,
    }
}

#[test]
fn titles_take_the_first_plain_line() {
    assert_eq!(compact_title("```rust\n{\"a\":1}\n## Fix   the   build \nmore"), "Fix the build");
    assert_eq!(compact_title("   "), "");
    assert!(has_words("hi there"));
    assert!(!has_words(" -- ** "));
}

#[test]
fn long_titles_are_cut_at_a_word_with_an_ellipsis() {
    let words = "word ".repeat(30);
    let t = compact_title(&words);
    assert!(t.ends_with('…'));
    assert!(t.chars().count() <= 81);
    assert_eq!(t, format!("{}…", "word ".repeat(16).trim_end()));
    let one = "x".repeat(100);
    assert_eq!(compact_title(&one), format!("{}…", "x".repeat(80)));
    let punct = format!("{}, tail", "a".repeat(78));
    assert_eq!(compact_title(&punct), format!("{}…", "a".repeat(78)));
}

#[test]
fn the_title_comes_from_the_first_worded_user_message() {
    let mut first = user_event("...");
    first.content = Some("  ** ".to_string());
    let second = user_event("# Add tests");
    assert_eq!(derive_title(&[first, second]), Some("Add tests".to_string()));
    assert_eq!(derive_title(&[]), None);
}

#[test]
fn session_directories_encode_the_working_directory() {
    assert_eq!(cwd_from_dir_name("--home-ann-project--"), Some("/home/ann/project".to_string()));
    assert_eq!(cwd_from_dir_name("home-ann"), None);
    assert_eq!(cwd_from_dir_name("----"), None);
}

#[test]
fn file_names_carry_the_session_time() {
    assert_eq!(
        timestamp_from_filename("2026-05-20T10-20-30-000Z_abc.jsonl"),
        "2026-05-20T10:20:30Z"
    );
    assert_eq!(timestamp_from_filename("short.jsonl"), "1970-01-01T00:00:00Z");
}

#[test]
fn session_ids_come_from_the_file_stem() {
    assert_eq!(session_id_from_stem("2026-05-20T10-20-30-000Z_abc-123"), "abc-123");
    assert_eq!(session_id_from_stem("a_b_c"), "c");
    assert_eq!(session_id_from_stem("plain"), "unknown");
}

#[test]
fn tilde_paths_resolve_against_home() {
    assert_eq!(expand_tilde("~", "/home/ann"), "/home/ann");
    assert_eq!(expand_tilde("~/x/y", "/home/ann"), "/home/ann/x/y");
    assert_eq!(expand_tilde("~/x", "/home/ann/"), "/home/ann/x");
    assert_eq!(expand_tilde("~other", "/home/ann"), "~other");
    assert_eq!(expand_tilde("/abs", "/home/ann"), "/abs");
}

#[test]
fn the_first_session_line_is_the_header() {
    let lines = vec![
        obj(vec![("type", s("message")), ("id", s("m1"))]),
        obj(vec![("type", s("session")), ("id", s("sess-1"))]),
        obj(vec![("type", s("session")), ("id", s("sess-2"))]),
    ];
    let (header, entries) = split_session_lines(&lines);
    let header = header.unwrap();
    assert_eq!(header.get("id").and_then(|v| v.as_str()), Some("sess-1"));
    assert_eq!(entries.len(), 2);
}

#[test]
fn a_session_log_is_imported() {
    let lines = vec![
        obj(vec![("type", s("session")), ("id", s("sess-1")), ("cwd", s("/work")), ("timestamp", s("2026-05-20T10:00:00Z"))]),
        obj(vec![
            ("type", s("message")),
            ("id", s("m1")),
            ("timestamp", s("2026-05-20T10:00:05Z")),
            ("message", obj(vec![("role", s("user")), ("content", s("Please fix the build"))])),
        ]),
        obj(vec![
            ("type", s("message")),
            ("id", s("m2")),
            ("parentId", s("m1")),
            ("timestamp", s("2026-05-20T10:00:09Z")),
            ("message", obj(vec![("role", s("assistant")), ("content", s("Done"))])),
        ]),
    ];
    let name = "2026-05-20T10-00-00-000Z_sess-1.jsonl";
    assert!(session_supported(&lines, name));
    let session = build_session(&lines, "2026-05-20T10-00-00-000Z_sess-1", name, None, None, None, None);
    assert_eq!(session.external_session_id, "sess-1");
    assert_eq!(session.cwd, Some("/work".to_string()));
    assert_eq!(session.title, Some("Please fix the build".to_string()));
    assert_eq!(session.events.len(), 2);
    assert_eq!(session.events[1].external_event_id, "m2:0");
    assert_eq!(session.events[1].parent_external_event_id, Some("m1".to_string()));
    assert_eq!(latest_event_time(&session.events), Some("2026-05-20T10:00:09Z".to_string()));
    assert_eq!(session.updated_at, "2026-05-20T10:00:09Z");
}

#[test]
fn message_text_is_extracted_from_strings_and_parts() {
    assert_eq!(extract_text(&s("plain")), "plain");
    assert_eq!(extract_text(&Json::Null), "");
    let parts = Json::Array(vec![
        s("one"),
        obj(vec![("type", s("text")), ("text", s("two"))]),
        obj(vec![("content", s("three"))]),
        obj(vec![("image", s("..."))]),
    ]);
    assert_eq!(extract_text(&parts), "one\ntwo\nthree");
    assert_eq!(extract_text(&Json::Bool(true)), "true");
}

#[test]
fn system_entries_are_summarised() {
    let model = obj(vec![("type", s("model_change")), ("provider", s("acme")), ("modelId", s("m-large"))]);
    assert_eq!(summarize_entry(&model), "model: acme/m-large");
    let level = obj(vec![("type", s("thinking_level_change")), ("thinkingLevel", s("high"))]);
    assert_eq!(summarize_entry(&level), "thinking: high");
    let label = obj(vec![("type", s("label"))]);
    assert_eq!(summarize_entry(&label), "label: ");
    let summary = obj(vec![("type", s("compaction")), ("summary", s("we did things"))]);
    assert_eq!(summarize_entry(&summary), "we did things");
}

#[test]
fn log_entries_become_events() {
    let entries = vec![
        obj(vec![
            ("type", s("message")),
            ("id", s("a1")),
            ("message", obj(vec![
                ("role", s("assistant")),
                ("content", Json::Array(vec![
                    obj(vec![("type", s("thinking")), ("thinking", s("hmm"))]),
                    obj(vec![("type", s("text")), ("text", s("answer"))]),
                ])),
            ])),
        ]),
        obj(vec![
            ("type", s("message")),
            ("id", s("t1")),
            ("message", obj(vec![("role", s("toolResult")), ("content", s("ok")), ("toolName", s("bash"))])),
        ]),
        obj(vec![("type", s("label")), ("id", s("l1")), ("label", s("v1"))]),
        obj(vec![("type", s("ignored_kind")), ("id", s("x"))]),
    ];
    let events = events_from_entries(entries);
    let summary: Vec<(String, String, String, Option<String>)> = events
        .iter()
        .map(|e| (e.external_event_id.clone(), e.role.clone(), e.kind.clone(), e.content.clone()))
        .collect();
    assert_eq!(
        summary,
        vec![
            ("a1:0".to_string(), "assistant".to_string(), "thinking".to_string(), Some("hmm".to_string())),
            ("a1:1".to_string(), "assistant".to_string(), "message".to_string(), Some("answer".to_string())),
            ("t1".to_string(), "tool".to_string(), "tool_result".to_string(), Some("ok".to_string())),
            ("l1".to_string(), "system".to_string(), "label".to_string(), Some("label: v1".to_string())),
        ]
    );
}

#[test]
fn event_hashes_cover_the_event_fields() {
    let e = user_event("hello");
    let mut payload = serde_json::Map::new();
    payload.insert("content".to_string(), serde_json::Value::String("hello".to_string()));
    payload.insert("created_at".to_string(), serde_json::Value::Null);
    payload.insert("external_event_id".to_string(), serde_json::Value::String("e1".to_string()));
    payload.insert("kind".to_string(), serde_json::Value::String("message".to_string()));
    payload.insert("role".to_string(), serde_json::Value::String("user".to_string()));
    payload.insert("session".to_string(), serde_json::Value::String("sess".to_string()));
    let bytes = serde_json::to_vec(&serde_json::Value::Object(payload)).unwrap();
    let digest = <sha2::Sha256 as sha2::Digest>::digest(&bytes);
    assert_eq!(event_hash("sess", &e), format!("sha256:{}", hex::encode(digest)));
    assert_ne!(event_hash("sess", &e), event_hash("other", &e));
}

#[test]
fn backfill_arguments_are_read() {
    assert_eq!(
        parse_args(args(&["--dry-run", "a.jsonl", "--limit", "+3", "--data-dir", "/d", "b"])),
        Ok(BackfillInvocation::Run(BackfillArgs {
            paths: args(&["a.jsonl", "b"]),
            data_dir: Some("/d".to_string()),
            default_visibility: None,
            dry_run: true,
            limit: Some(3),
        }))
    );
    assert_eq!(parse_args(args(&["x", "-h"])), Ok(BackfillInvocation::Help));
    assert_eq!(parse_args(args(&["--limit"])), Err("--limit needs a value".to_string()));
    assert_eq!(parse_args(args(&["--what"])), Err("unknown flag --what".to_string()));
    assert_eq!(parse_args(args(&["--limit", "ten"])), Err("invalid digit found in string".to_string()));
    let limit = |text: &str| match parse_args(args(&["--limit", text])) {
        Ok(BackfillInvocation::Run(a)) => Ok(a.limit),
        Ok(BackfillInvocation::Help) => Err("help".to_string()),
        Err(e) => Err(e),
    };
    assert_eq!(limit("12"), Ok(Some(12)));
    assert_eq!(limit("+12"), Ok(Some(12)));
    assert!(limit("-1").is_err());
    assert_eq!(limit(""), Err("cannot parse integer from empty string".to_string()));
    assert_eq!(
        parse_args(args(&["--default-visibility"])),
        Err("--default-visibility needs a value".to_string())
    );
}

#[test]
fn the_key_minting_command_reads_a_client_name() {
    assert_eq!(parse_name(args(&["  laptop "])), Ok(ClientNameArgs::Name("laptop".to_string())));
    assert_eq!(parse_name(args(&["--name", "Pi on desk"])), Ok(ClientNameArgs::Name("Pi on desk".to_string())));
    assert_eq!(parse_name(args(&["--help"])), Ok(ClientNameArgs::Help));
    assert_eq!(
        parse_name(args(&[])),
        Err("a client name is required (--name \"Pi extension on laptop\")".to_string())
    );
    assert_eq!(parse_name(args(&["--name"])), Err("--name requires a value".to_string()));
    assert_eq!(parse_name(args(&["a", "b"])), Err("unexpected argument b".to_string()));
    assert_eq!(parse_name(args(&["-x"])), Err("unexpected argument -x".to_string()));
    assert_eq!(parse_name(args(&["  "])), Err("client name cannot be empty".to_string()));
}

#[test]
fn minted_keys_store_only_the_hash() {
    let (key, hash) = mint_api_key(" laptop ", "2026-01-01T00:00:00Z".to_string()).unwrap();
    assert_eq!(key.name, "laptop");
    assert!(key.plaintext_token.starts_with("ptv_"));
    assert_eq!(key.token_prefix, key.plaintext_token[..12].to_string());
    assert!(key.client_id.starts_with("clt_"));
    assert_eq!(key.created_at, "2026-01-01T00:00:00Z");
    assert_eq!(hash.as_str(), token_hash(&key.plaintext_token));
    assert!(mint_api_key("  ", "t".to_string()).is_err());
    assert!(generate_token().starts_with("ptv_"));
}

#[test]
fn token_hashes_are_prefixed_sha256_hex() {
    assert_eq!(
        token_hash("abc"),
        "sha256:ba7816bf8f01cfea414140de5dae2223b00361a396177a9cb410ff61f20015ad"
    );
}

#[test]
fn ids_have_their_prefix_and_32_hex_digits() {
    let id = new_id("thr");
    assert!(id.starts_with("thr_"));
    assert_eq!(id.len(), 36);
    assert!(id[4..].chars().all(|c| c.is_ascii_hexdigit()));
    assert_ne!(new_id("thr"), new_id("thr"));
}

#[test]
fn nul_characters_are_removed() {
    assert_eq!(strip_nuls("a\0b"), "ab");
    assert_eq!(strip_nuls_opt(Some("\0x".to_string())), Some("x".to_string()));
    assert_eq!(strip_nuls_opt(None), None);
}

#[test]
fn signatures_are_hmac_sha256_hex() {
    // RFC 4231 test case 2
    assert_eq!(
        sign("what do ya want for nothing?", "Jefe"),
        "5bdcc146bf60754e6a042426089575c75a003f089d2739839dec58b964ec3843"
    );
    let sig = sign("v", "k");
    assert!(verify_signature("v", &sig, "k"));
    assert!(!verify_signature("v", &sig, "other"));
    assert!(!verify_signature("w", &sig, "k"));
}

#[test]
fn the_jj_remote_prefers_origin() {
    assert_eq!(
        jj_remote_of("upstream https://u.example/r.git\norigin  git@h:me/r.git\n"),
        Some("git@h:me/r.git".to_string())
    );
    assert_eq!(jj_remote_of("upstream https://u/r\n"), Some("https://u/r".to_string()));
    assert_eq!(jj_remote_of("lonely\n\n"), None);
}

#[test]
fn jj_information_overrides_git() {
    let git = (Some("git-remote".to_string()), Some("main".to_string()), Some("abc".to_string()));
    assert_eq!(repo_info(git.0.clone(), git.1.clone(), git.2.clone(), None), git.clone());
    let jj = JjState {
        remotes: Some("origin jj-remote".to_string()),
        bookmarks: None,
        change: Some("kxyz".to_string()),
        commit: Some("def".to_string()),
    };
    assert_eq!(
        repo_info(git.0.clone(), None, git.2.clone(), Some(jj.clone())),
        (Some("jj-remote".to_string()), Some("jj:kxyz".to_string()), Some("def".to_string()))
    );
    assert_eq!(
        repo_info(git.0.clone(), git.1.clone(), None, Some(JjState { remotes: None, bookmarks: Some("feat".to_string()), change: None, commit: None })),
        (Some("git-remote".to_string()), Some("feat".to_string()), None)
    );
}

#[test]
fn blank_searches_do_not_run() {
    assert!(!search_runs("   "));
    assert!(search_runs(" websockets "));
    assert_eq!(like_needle("web"), "%web%");
}
