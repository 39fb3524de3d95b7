use hub::vault::web::{
    display_content, event_timestamp, extract_available_tools, extract_is_error,
    extract_system_prompt, extract_tool_call_id, format_duration, group_thought_events,
    has_protocol_prefix, is_toolish_event, merge_tool_results, parse_tools_snapshot,
    protocol_prefix_len, strip_protocol_prefix, summarize_tool_labels, thought_duration,
    tool_label, tool_label_from_content, visible_events, EventDetail,
};

fn event(id: &str, role: &str, kind: &str, content: Option<&str>) -> EventDetail {
    EventDetail {
        id: id.to_string(),
        external_event_id: None,
        parent_external_event_id: None,
        role: role.to_string(),
        kind: kind.to_string(),
        content: content.map(str::to_string),
        display_content: content.map(str::to_string),
        tool_label: None,
        metadata_json: "{}".to_string(),
        created_at: None,
        inserted_at: "2026-01-01T00:00:00Z".to_string(),
        timestamp_display: String::new(),
        tool_result_content: None,
        tool_result_metadata_json: None,
        tool_result_is_error: false,
    }
}

#[test]
fn durations_are_rounded_to_the_largest_unit() {
    assert_eq!(format_duration(-5), "1 seconds");
    assert_eq!(format_duration(1), "1 second");
    assert_eq!(format_duration(59), "59 seconds");
    assert_eq!(format_duration(60), "1 minute");
    assert_eq!(format_duration(89), "1 minute");
    assert_eq!(format_duration(90), "2 minutes");
    assert_eq!(format_duration(3599), "60 minutes");
    assert_eq!(format_duration(3600), "1 hour");
    assert_eq!(format_duration(5400), "2 hours");
}

#[test]
fn thinking_time_is_measured_between_timestamps() {
    assert_eq!(
        thought_duration(Some("2026-01-01T00:00:00Z"), Some("2026-01-01T00:01:30Z")),
        Some("2 minutes".to_string())
    );
    assert_eq!(
        thought_duration(Some("2026-01-01T00:01:00Z"), Some("2026-01-01T00:00:00Z")),
        Some("1 seconds".to_string())
    );
    assert_eq!(thought_duration(None, Some("2026-01-01T00:00:00Z")), None);
    assert_eq!(thought_duration(Some("yesterday"), Some("2026-01-01T00:00:00Z")), None);
}

#[test]
fn protocol_prefixes_are_recognised_and_stripped() {
    let text = "{\"type\":\"thinking\",\"thinking\":\"hm\"}\n  Hello there";
    assert!(has_protocol_prefix(text));
    assert_eq!(strip_protocol_prefix(text), "\n  Hello there");
    assert_eq!(display_content("assistant", "message", Some(text)), Some("Hello there".to_string()));
    let only = "{\"type\":\"toolCall\",\"name\":\"bash\"}{\"type\":\"toolResult\"}";
    assert_eq!(protocol_prefix_len(only), Some(only.len()));
    assert_eq!(display_content("assistant", "message", Some(only)), None);
    assert!(!has_protocol_prefix("{\"type\":\"text\"} hi"));
    assert!(!has_protocol_prefix("plain words"));
    assert_eq!(display_content("user", "message", Some(only)), Some(only.to_string()));
    assert_eq!(display_content("assistant", "message", None), None);
}

#[test]
fn tool_like_events_are_recognised() {
    assert!(is_toolish_event(&event("1", "assistant", "tool_call", None)));
    assert!(is_toolish_event(&event("1", "tool", "message", None)));
    assert!(is_toolish_event(&event("1", "system", "message", None)));
    assert!(!is_toolish_event(&event("1", "assistant", "message", Some("hi"))));
    let mut protocol = event("1", "assistant", "message", Some("{\"type\":\"reasoning\"}"));
    protocol.display_content = None;
    assert!(is_toolish_event(&protocol));
}

#[test]
fn tool_labels_come_from_metadata_or_content() {
    assert_eq!(tool_label("tool_call", None, "{\"toolName\":\"bash\"}"), Some("bash".to_string()));
    assert_eq!(
        tool_label("tool_call", None, "{\"entry\":{\"message\":{\"toolName\":\"read\"}}}"),
        Some("read".to_string())
    );
    assert_eq!(tool_label("tool_call", Some("{\"name\":\"edit\"}"), "{}"), Some("edit".to_string()));
    assert_eq!(tool_label("message", Some("{\"name\":\"edit\"}"), "{}"), None);
    assert_eq!(tool_label("tool_call", Some("{\"name\":\"edit\"}"), "not json"), None);
    assert_eq!(tool_label_from_content("tool", Some("{\"toolName\":\"grep\"}")), Some("grep".to_string()));
    assert_eq!(extract_tool_call_id("{\"block\":{\"toolCallId\":\"c1\"}}"), Some("c1".to_string()));
    assert_eq!(extract_tool_call_id("{}"), None);
    assert!(extract_is_error("{\"entry\":{\"isError\":true}}"));
    assert!(!extract_is_error("{\"isError\":\"yes\"}"));
}

#[test]
fn tool_summaries_count_labels() {
    let mut a = event("1", "assistant", "tool_call", None);
    a.tool_label = Some("bash".to_string());
    let mut b = event("2", "assistant", "tool_call", None);
    b.tool_label = Some("bash".to_string());
    let mut c = event("3", "assistant", "tool_call", None);
    c.tool_label = Some("read".to_string());
    let d = event("4", "assistant", "thinking", None);
    let events = vec![a, b, c, d];
    assert_eq!(summarize_tool_labels(&events), Some("bash ×2, read".to_string()));
    let tools = extract_available_tools(&events);
    let names: Vec<(String, usize)> = tools.into_iter().map(|t| (t.name, t.count)).collect();
    assert_eq!(names, vec![("bash".to_string(), 2), ("read".to_string(), 1)]);
    assert_eq!(summarize_tool_labels(&[event("5", "assistant", "thinking", None)]), None);
}

#[test]
fn a_tools_snapshot_lists_the_available_tools() {
    let snap = parse_tools_snapshot("[{\"name\":\"bash\"},{\"toolName\":\"read\"},{\"x\":1},3]").unwrap();
    let names: Vec<String> = snap.into_iter().map(|t| t.name).collect();
    assert_eq!(names, vec!["bash".to_string(), "read".to_string()]);
    assert!(parse_tools_snapshot("[]").is_none());
    assert!(parse_tools_snapshot("{}").is_none());
    let events = vec![event("1", "system", "tools_snapshot", Some("[{\"name\":\"bash\"}]"))];
    let tools = extract_available_tools(&events);
    assert_eq!(tools.len(), 1);
    assert_eq!(tools[0].name, "bash");
    assert_eq!(tools[0].count, 0);
}

#[test]
fn the_system_prompt_is_the_first_non_blank_one() {
    let events = vec![
        event("1", "system", "system_prompt", Some("You are helpful.")),
        event("2", "system", "system_prompt", Some("second")),
    ];
    assert_eq!(extract_system_prompt(&events), Some("You are helpful.".to_string()));
    let blank = vec![event("1", "system", "system_prompt", Some("  "))];
    assert_eq!(extract_system_prompt(&blank), None);
}

#[test]
fn tool_results_are_merged_into_their_calls() {
    let mut call = event("1", "assistant", "tool_call", Some("{}"));
    call.metadata_json = "{\"toolCallId\":\"c1\"}".to_string();
    let mut result = event("2", "tool", "tool_result", Some("output"));
    result.metadata_json = "{\"toolCallId\":\"c1\",\"isError\":true}".to_string();
    let other = event("3", "assistant", "message", Some("done"));
    let merged = merge_tool_results(vec![call, result, other]);
    let ids: Vec<&str> = merged.iter().map(|e| e.id.as_str()).collect();
    assert_eq!(ids, vec!["1", "3"]);
    assert_eq!(merged[0].tool_result_content, Some("output".to_string()));
    assert!(merged[0].tool_result_is_error);
    assert_eq!(
        merged[0].tool_result_metadata_json,
        Some("{\"toolCallId\":\"c1\",\"isError\":true}".to_string())
    );
}

#[test]
fn unmatched_results_stay_where_they_are() {
    let mut result = event("2", "tool", "tool_result", Some("output"));
    result.metadata_json = "{\"toolCallId\":\"zz\"}".to_string();
    let merged = merge_tool_results(vec![event("1", "user", "message", Some("hi")), result]);
    assert_eq!(merged.len(), 2);
}

#[test]
fn tool_events_are_folded_between_messages() {
    let mut user = event("u", "user", "message", Some("go"));
    user.created_at = Some("2026-01-01T00:00:00Z".to_string());
    let mut t1 = event("t1", "assistant", "tool_call", None);
    t1.tool_label = Some("bash".to_string());
    let t2 = event("t2", "assistant", "thinking", None);
    let mut reply = event("a", "assistant", "message", Some("done"));
    reply.created_at = Some("2026-01-01T00:00:45Z".to_string());
    let rows = group_thought_events(vec![user, t1, t2, reply]);
    assert_eq!(rows.len(), 3);
    assert_eq!(rows[0].event.id, "u");
    assert!(!rows[0].is_thought_group);
    assert!(rows[1].is_thought_group);
    assert_eq!(rows[1].event.id, "t1");
    let children: Vec<&str> = rows[1].children.iter().map(|e| e.id.as_str()).collect();
    assert_eq!(children, vec!["t1", "t2"]);
    assert_eq!(rows[1].thought_duration, Some("45 seconds".to_string()));
    assert_eq!(rows[1].thought_summary, Some("bash".to_string()));
    assert_eq!(rows[2].event.id, "a");
}

#[test]
fn trailing_tool_events_form_a_group_without_duration() {
    let rows = group_thought_events(vec![
        event("u", "user", "message", Some("go")),
        event("t", "assistant", "tool_call", None),
    ]);
    assert_eq!(rows.len(), 2);
    assert!(rows[1].is_thought_group);
    assert_eq!(rows[1].thought_duration, None);
}

#[test]
fn the_timestamp_falls_back_to_insertion_time() {
    let mut e = event("1", "user", "message", None);
    assert_eq!(event_timestamp(&e), Some("2026-01-01T00:00:00Z".to_string()));
    e.created_at = Some("2025-05-05T00:00:00Z".to_string());
    assert_eq!(event_timestamp(&e), Some("2025-05-05T00:00:00Z".to_string()));
}

#[test]
fn numeric_snapshot_artifacts_are_not_listed_as_tools() {
    let events = vec![event(
        "1",
        "system",
        "tools_snapshot",
        Some("[{\"name\":\"0\"},{\"name\":\"1\"},{\"name\":\"bash\"},{\"name\":\"read\"}]"),
    )];
    let names: Vec<String> = extract_available_tools(&events).into_iter().map(|t| t.name).collect();
    assert_eq!(names, vec!["bash".to_string(), "read".to_string()]);
    assert!(!names.iter().any(|n| n == "0" || n == "1"));
    let only_numbers = vec![event("1", "system", "tools_snapshot", Some("[{\"name\":\"0\"}]"))];
    assert!(extract_available_tools(&only_numbers).is_empty());
}

#[test]
fn the_page_lists_all_but_prompt_and_snapshot() {
    let v = visible_events(vec![
        event("1", "system", "system_prompt", Some("p")),
        event("2", "user", "message", Some("a")),
        event("3", "system", "tools_snapshot", Some("[]")),
        event("4", "assistant", "message", Some("b")),
    ]);
    let ids: Vec<&str> = v.iter().map(|e| e.id.as_str()).collect();
    assert_eq!(ids, vec!["2", "4"]);
}
