use hub::domain::memory::MemoryConflictAction;
use hub::memory::engine::{
    conflict_action_from_reply, conflict_prompt, facts_from_reply, strip_code_block, upsert_action,
    UpsertAction,
};

#[test]
fn strip_code_block_plain() {
    let input = r#"["fact one", "fact two"]"#;
    assert_eq!(strip_code_block(input), input);
}

#[test]
fn strip_code_block_fenced() {
    let input = "```json\n[\"fact one\"]\n```";
    assert_eq!(strip_code_block(input), "[\"fact one\"]");
}

#[test]
fn strip_code_block_no_lang() {
    let input = "```\n{\"action\": \"update\"}\n```";
    assert_eq!(strip_code_block(input), "{\"action\": \"update\"}");
}

#[test]
fn strip_code_block_trims_surrounding_whitespace() {
    assert_eq!(strip_code_block("  \n```json\n[]\n```\n  "), "[]");
    assert_eq!(strip_code_block("  plain  "), "plain");
}

#[test]
fn facts_are_read_from_a_fenced_reply() {
    let facts = facts_from_reply("```json\n[\"likes tea\", \"lives in Oslo\"]\n```").unwrap();
    let texts: Vec<&str> = facts.iter().map(|f| f.as_str()).collect();
    assert_eq!(texts, vec!["likes tea", "lives in Oslo"]);
}

#[test]
fn a_reply_that_is_not_a_list_of_strings_is_an_error() {
    assert!(facts_from_reply("{\"a\": 1}").is_err());
    assert!(facts_from_reply("not json").is_err());
}

#[test]
fn unknown_conflict_actions_keep_both_facts() {
    assert!(matches!(
        conflict_action_from_reply("explode", None),
        Ok(MemoryConflictAction::KeepBoth)
    ));
    assert!(matches!(
        conflict_action_from_reply("keep_existing", None),
        Ok(MemoryConflictAction::KeepExisting)
    ));
}

#[test]
fn an_update_needs_a_merged_fact() {
    assert_eq!(
        conflict_action_from_reply("update", None).unwrap_err(),
        "Update action requires merged_fact field"
    );
    match conflict_action_from_reply("update", Some("  likes green tea ".to_string())) {
        Ok(MemoryConflictAction::Update(f)) => assert_eq!(f.as_str(), "likes green tea"),
        _ => panic!("expected an update"),
    }
    assert_eq!(
        conflict_action_from_reply("update", Some("   ".to_string())).unwrap_err(),
        "memory fact must not be empty"
    );
}

#[test]
fn upsert_follows_the_conflict_outcome() {
    assert!(matches!(upsert_action(None), UpsertAction::Insert));
    assert!(matches!(upsert_action(Some(Err("x".to_string()))), UpsertAction::Insert));
    assert!(matches!(
        upsert_action(Some(Ok(MemoryConflictAction::KeepBoth))),
        UpsertAction::Insert
    ));
    assert!(matches!(
        upsert_action(Some(Ok(MemoryConflictAction::KeepExisting))),
        UpsertAction::Skip
    ));
}

#[test]
fn the_conflict_prompt_quotes_both_facts() {
    assert_eq!(
        conflict_prompt("likes tea", "likes coffee"),
        "Existing fact: \"likes tea\"\nNew fact: \"likes coffee\""
    );
}

#[test]
fn an_empty_fact_in_the_reply_fails_the_whole_reply() {
    assert_eq!(
        facts_from_reply("[\"ok\", \" \"]").unwrap_err(),
        "memory fact must not be empty"
    );
}
