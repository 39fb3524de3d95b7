use hub::authentication::bearer_header;
use hub::json::Json;
use hub::memory::engine::{
    active_user_filter, chat_completions_url, conflict_request, embedding_request,
    embeddings_url, extraction_request, memory_id_filter, CONFLICT_SYSTEM_PROMPT,
    EXTRACTION_SYSTEM_PROMPT,
};
use hub::memory::routes::{
    check_add_memory, check_list_memories, check_search_memory, validate_user_id,
    AddMemoryRequest, MemoryRejection, SearchMemoryRequest,
};

fn add(user_id: &str, text: &str) -> AddMemoryRequest {
    AddMemoryRequest { user_id: user_id.to_string(), text: text.to_string() }
}

fn search(user_id: &str, query: &str) -> SearchMemoryRequest {
    SearchMemoryRequest { user_id: user_id.to_string(), query: query.to_string() }
}

#[test]
fn memory_requests_check_auth_before_anything_else() {
    assert_eq!(check_add_memory(false, true, &add("test-user", "I prefer dark mode")), Err(MemoryRejection::Unauthorized));
    assert_eq!(check_add_memory(false, false, &add("", "")), Err(MemoryRejection::Unauthorized));
    assert_eq!(check_search_memory(false, true, &search("test-user", "what editor do I use")), Err(MemoryRejection::Unauthorized));
    assert_eq!(check_list_memories(false, true, "test-user"), Err(MemoryRejection::Unauthorized));
}

#[test]
fn a_disabled_engine_answers_503() {
    assert_eq!(check_add_memory(true, false, &add("test-user", "I prefer dark mode")), Err(MemoryRejection::Disabled));
    assert_eq!(check_search_memory(true, false, &search("test-user", "preferences")), Err(MemoryRejection::Disabled));
    assert_eq!(check_list_memories(true, false, "test-user"), Err(MemoryRejection::Disabled));
    assert_eq!(check_add_memory(true, false, &add("", "some text")), Err(MemoryRejection::Disabled));
    assert_eq!(check_search_memory(true, false, &search("test-user", "")), Err(MemoryRejection::Disabled));
}

#[test]
fn user_ids_and_payloads_are_validated_once_enabled() {
    assert_eq!(
        check_add_memory(true, true, &add("", "some text")),
        Err(MemoryRejection::BadRequest("user_id must not be empty"))
    );
    assert_eq!(
        check_search_memory(true, true, &search("test-user", "")),
        Err(MemoryRejection::BadRequest("query must be between 1 and 10KB"))
    );
    assert_eq!(
        check_add_memory(true, true, &add("u", &"x".repeat(102_401))),
        Err(MemoryRejection::BadRequest("text must be between 1 and 100KB"))
    );
    assert_eq!(check_add_memory(true, true, &add("u", "x")), Ok(()));
    assert_eq!(check_list_memories(true, true, "u"), Ok(()));
    assert_eq!(validate_user_id(&"u".repeat(257)), Err("user_id must not exceed 256 characters"));
    assert_eq!(validate_user_id(&"u".repeat(256)), Ok(()));
}

#[test]
fn model_requests_have_the_expected_shape() {
    assert_eq!(embeddings_url("https://api.example"), "https://api.example/v1/embeddings");
    assert_eq!(chat_completions_url("https://api.example"), "https://api.example/v1/chat/completions");
    assert_eq!(
        embedding_request("emb-1", "hello").to_compact(),
        "{\"input\":\"hello\",\"model\":\"emb-1\"}"
    );
    let extraction = extraction_request("m", "I like tea").to_compact();
    let expected = format!(
        "{{\"messages\":[{{\"content\":{},\"role\":\"system\"}},{{\"content\":\"I like tea\",\"role\":\"user\"}}],\"model\":\"m\",\"temperature\":0.0}}",
        serde_json::to_string(EXTRACTION_SYSTEM_PROMPT).unwrap()
    );
    assert_eq!(extraction, expected);
    let conflict = conflict_request("m", "likes tea", "likes coffee");
    let text = conflict.to_compact();
    assert!(text.contains(&serde_json::to_string(CONFLICT_SYSTEM_PROMPT).unwrap()));
    assert!(text.contains("\"content\":\"Existing fact: \\\"likes tea\\\"\\nNew fact: \\\"likes coffee\\\"\""));
    assert!(matches!(conflict, Json::Object(_)));
}

#[test]
fn request_bodies_match_what_serde_json_writes() {
    let mut message = serde_json::Map::new();
    message.insert("role".to_string(), serde_json::Value::String("user".to_string()));
    message.insert("content".to_string(), serde_json::Value::String("hi".to_string()));
    let mut body = serde_json::Map::new();
    body.insert("model".to_string(), serde_json::Value::String("emb".to_string()));
    body.insert("input".to_string(), serde_json::Value::String("hi".to_string()));
    assert_eq!(
        embedding_request("emb", "hi").to_compact(),
        serde_json::to_string(&serde_json::Value::Object(body)).unwrap()
    );
}

#[test]
fn store_filters_name_the_user_or_the_memory() {
    assert_eq!(active_user_filter("ann"), "user_id = 'ann' AND is_active = true");
    assert_eq!(memory_id_filter("0f"), "id = '0f'");
    assert_eq!(bearer_header("k"), "Bearer k");
    assert!(hub::authentication::verify_bearer_token(Some(&bearer_header("k")), "k"));
}

#[test]
fn the_extraction_prompt_asks_for_a_json_array() {
    assert!(EXTRACTION_SYSTEM_PROMPT.starts_with("You are a memory extraction assistant."));
    assert!(EXTRACTION_SYSTEM_PROMPT.ends_with("[\"User prefers Rust over Python\", \"User works at a startup\"]"));
    assert!(CONFLICT_SYSTEM_PROMPT.ends_with("optional otherwise."));
}
