use hub::authentication::{bearer_token, verify_bearer_token};

#[test]
fn matching_tokens_pass() {
    let header = "Bearer my-secret-token".to_string();
    assert!(verify_bearer_token(Some(header.as_str()), "my-secret-token"));
}

#[test]
fn mismatched_tokens_fail() {
    let header = "Bearer wrong-token".to_string();
    assert!(!verify_bearer_token(Some(header.as_str()), "my-secret-token"));
}

#[test]
fn missing_header_fails() {
    assert!(!verify_bearer_token(None, "my-secret-token"));
}

#[test]
fn non_bearer_scheme_fails() {
    let header = "Basic abc123".to_string();
    assert!(!verify_bearer_token(Some(header.as_str()), "abc123"));
}

#[test]
fn empty_token_fails_against_non_empty() {
    let header = "Bearer ".to_string();
    assert!(!verify_bearer_token(Some(header.as_str()), "some-token"));
}

#[test]
fn bearer_token_strips_the_scheme() {
    assert_eq!(bearer_token(Some("Bearer abc")), Some("abc".to_string()));
    assert_eq!(bearer_token(Some("bearer abc")), None);
    assert_eq!(bearer_token(Some("Bearer")), None);
    assert_eq!(bearer_token(None), None);
}

#[test]
fn a_token_with_a_different_length_fails() {
    assert!(!verify_bearer_token(Some("Bearer abc"), "abcd"));
    assert!(verify_bearer_token(Some("Bearer "), ""));
}
