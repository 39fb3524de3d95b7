use hub::domain::api_key::{ApiClientName, ApiToken, ApiTokenHash, API_TOKEN_PREFIX};
use hub::domain::memory::{
    MemoryConflictAction, MemoryExtractionStatus, MemoryFact, MemoryQuery, MemoryUserId,
    RawMemoryText, SearchLimit,
};
use hub::domain::newsletter::{NewNewsletterIssue, NewsletterTitle};
use hub::domain::paste::{PasteContent, PasteContentError, PasteId, PasteIdError, MAX_PASTE_BYTES};
use hub::domain::prefixed_id::{ApiClientId, VaultEventId, VaultShareId, VaultThreadId};
use hub::domain::vault::{
    EventHash, ExternalSessionId, PostgresSafeText, ShareKind, ShareToken, VaultEventKind,
    VaultEventRole, VaultVisibility,
};

#[test]
fn paste_ids_are_eight_lowercase_alphanumerics() {
    assert!(PasteId::parse("abc12345".to_string()).is_ok());
    assert_eq!(
        PasteId::parse("abc".to_string()),
        Err(PasteIdError::InvalidLength { expected: 8, actual: 3 })
    );
    assert_eq!(PasteId::parse("ABC12345".to_string()), Err(PasteIdError::InvalidCharacters));
    assert_eq!(
        PasteIdError::InvalidLength { expected: 8, actual: 3 }.to_string(),
        "paste id must be 8 characters, got 3"
    );
    let id = PasteId::generate();
    assert_eq!(id.as_str().len(), 8);
    assert!(id.as_str().chars().all(|c| c.is_ascii_lowercase() || c.is_ascii_digit()));
    assert!(PasteId::parse(id.to_string()).is_ok());
}

#[test]
fn paste_content_is_bounded() {
    assert_eq!(PasteContent::parse(String::new()), Err(PasteContentError::Empty));
    let big = "x".repeat(MAX_PASTE_BYTES + 1);
    assert_eq!(
        PasteContent::parse(big),
        Err(PasteContentError::TooLarge { max_bytes: MAX_PASTE_BYTES, actual_bytes: MAX_PASTE_BYTES + 1 })
    );
    let c = PasteContent::parse("  hi ".to_string()).unwrap();
    assert_eq!(c.as_str(), "  hi ");
    assert_eq!(c.len(), 5);
    assert!(!c.is_empty());
    assert_eq!(PasteContentError::Empty.to_string(), "paste content is required");
    assert_eq!(
        PasteContentError::TooLarge { max_bytes: 262144, actual_bytes: 9 }.to_string(),
        "paste must be at most 262144 bytes"
    );
}

#[test]
fn api_tokens_round_trip_and_hash() {
    let t = ApiToken::generate();
    assert!(t.expose_secret().starts_with(API_TOKEN_PREFIX));
    assert_eq!(t.expose_secret().len(), 4 + 43);
    assert!(ApiToken::parse(t.expose_secret().to_string()).is_ok());
    assert_eq!(t.display_prefix(), t.expose_secret()[..12].to_string());
    let h = t.hash();
    assert!(h.as_str().starts_with("sha256:"));
    assert_eq!(h.as_str().len(), 7 + 64);
    assert_eq!(ApiTokenHash::from_secret(t.expose_secret()), h);
    assert_eq!(ApiTokenHash::parse(h.as_str().to_string()), Ok(ApiTokenHash::from_secret(t.expose_secret())));
}

#[test]
fn malformed_api_tokens_are_refused() {
    assert_eq!(
        ApiToken::parse("xyz_abc".to_string()).unwrap_err(),
        "API token must start with ptv_"
    );
    assert_eq!(
        ApiToken::parse("ptv_short".to_string()).unwrap_err(),
        "API token must have a 43-character random suffix"
    );
    let bad = format!("ptv_{}", "+".repeat(43));
    assert_eq!(
        ApiToken::parse(bad).unwrap_err(),
        "API token suffix must be base64url without padding"
    );
    assert_eq!(
        ApiTokenHash::parse("md5:abc".to_string()).unwrap_err(),
        "API token hash must start with sha256:"
    );
    assert_eq!(
        ApiTokenHash::parse("sha256:xyz".to_string()).unwrap_err(),
        "API token hash must contain a SHA-256 hex digest"
    );
}

#[test]
fn a_known_token_hashes_to_its_sha256() {
    let h = ApiTokenHash::from_secret("abc");
    assert_eq!(
        h.as_str(),
        "sha256:ba7816bf8f01cfea414140de5dae2223b00361a396177a9cb410ff61f20015ad"
    );
}

#[test]
fn client_names_are_trimmed_and_bounded() {
    assert_eq!(ApiClientName::parse("  laptop ".to_string()).unwrap().as_str(), "laptop");
    assert_eq!(ApiClientName::parse("   ".to_string()).unwrap_err(), "client name is required");
    assert_eq!(
        ApiClientName::parse("x".repeat(129)).unwrap_err(),
        "client name must not exceed 128 characters"
    );
    assert!(ApiClientName::parse("x".repeat(128)).is_ok());
}

#[test]
fn prefixed_ids_have_prefix_and_uuid_hex() {
    let id = ApiClientId::generate();
    assert!(id.as_str().starts_with("clt_"));
    assert_eq!(id.as_str().len(), 36);
    assert!(ApiClientId::parse(id.to_string()).is_ok());
    assert!(VaultThreadId::generate().as_str().starts_with("thr_"));
    assert!(VaultEventId::generate().as_str().starts_with("evt_"));
    assert_eq!(
        VaultShareId::parse("thr_0123456789abcdef0123456789abcdef".to_string()).unwrap_err(),
        "VaultShareId must start with shr_"
    );
    assert!(VaultShareId::parse("shr_0123456789abcdef0123456789abcdef".to_string()).is_ok());
    assert!(VaultShareId::parse("shr_0123456789ABCDEF0123456789abcdef".to_string()).is_ok());
    assert_eq!(
        VaultShareId::parse("shr_0123".to_string()).unwrap_err(),
        "VaultShareId must end with a 32-character lowercase UUID hex string"
    );
}

#[test]
fn share_kinds_and_visibilities_round_trip() {
    for k in ["private", "public", "secret-link", "password-protected"] {
        assert_eq!(ShareKind::parse(k).unwrap().as_str(), k);
    }
    assert_eq!(ShareKind::parse("open").unwrap_err(), "unknown share kind: open");
    assert!(ShareKind::SecretLink.requires_token());
    assert!(ShareKind::PasswordProtected.requires_token());
    assert!(!ShareKind::Public.requires_token());
    assert_eq!(VaultVisibility::parse("public"), Ok(VaultVisibility::Public));
    assert_eq!(VaultVisibility::parse("hidden").unwrap_err(), "unknown vault visibility: hidden");
}

#[test]
fn share_tokens_are_43_base64url_characters() {
    let t = ShareToken::generate();
    assert_eq!(t.as_str().len(), 43);
    assert!(ShareToken::parse(t.to_string()).is_ok());
    assert!(ShareToken::parse("short".to_string()).is_err());
    assert!(ShareToken::parse("=".repeat(43)).is_err());
}

#[test]
fn event_fields_drop_nul_and_are_bounded() {
    assert_eq!(
        ExternalSessionId::parse("ab\0c".to_string()).unwrap().as_str(),
        "abc"
    );
    assert_eq!(
        ExternalSessionId::parse(" \0 ".to_string()).unwrap_err(),
        "external_session_id must not be empty"
    );
    assert_eq!(
        VaultEventRole::parse("x".repeat(65)).unwrap_err(),
        "event role must not exceed 64 bytes"
    );
    assert!(VaultEventKind::parse("message".to_string()).is_ok());
    assert_eq!(
        EventHash::parse("a b".to_string()).unwrap_err(),
        "event_hash must not contain whitespace"
    );
    assert_eq!(PostgresSafeText::parse("a\0b\0".to_string()).as_str(), "ab");
}

#[test]
fn memory_values_are_validated() {
    assert_eq!(MemoryUserId::parse(" ann ".to_string()).unwrap().as_str(), "ann");
    assert_eq!(MemoryUserId::parse("  ".to_string()).unwrap_err(), "user_id must not be empty");
    assert_eq!(
        MemoryUserId::parse("u".repeat(257)).unwrap_err(),
        "user_id must not exceed 256 characters"
    );
    assert!(RawMemoryText::parse("x".to_string()).is_ok());
    assert_eq!(RawMemoryText::parse(String::new()).unwrap_err(), "text must be between 1 and 100KB");
    assert_eq!(MemoryQuery::parse("y".repeat(10_241)).unwrap_err(), "query must be between 1 and 10KB");
    assert_eq!(MemoryFact::parse(" fact ".to_string()).unwrap().as_str(), "fact");
    assert_eq!(
        MemoryFact::parse("f".repeat(4097)).unwrap_err(),
        "memory fact must not exceed 4096 bytes"
    );
    assert_eq!(SearchLimit::parse(10).unwrap().get(), 10);
    assert_eq!(SearchLimit::parse(0).unwrap_err(), "search limit must be between 1 and 100");
    assert_eq!(SearchLimit::parse(101).unwrap_err(), "search limit must be between 1 and 100");
    assert!(matches!(MemoryConflictAction::KeepBoth, MemoryConflictAction::KeepBoth));
}

#[test]
fn extraction_statuses_round_trip() {
    for s in ["pending", "processing", "failed", "dead_letter"] {
        if let Ok(status) = MemoryExtractionStatus::parse(s) {
            assert_eq!(status.as_str(), s);
        }
    }
    assert_eq!(
        MemoryExtractionStatus::parse("done?").unwrap_err(),
        "unknown memory extraction status: done?"
    );
}

#[test]
fn newsletter_issues_are_validated() {
    assert_eq!(NewsletterTitle::parse("  ".to_string()).unwrap_err(), "newsletter title is required");
    assert_eq!(NewsletterTitle::parse(" Weekly ".to_string()).unwrap().as_str(), "Weekly");
    let issue = NewNewsletterIssue::parse(
        "Weekly digest".to_string(),
        "<p>HTML body</p>".to_string(),
        "Plain body".to_string(),
    );
    assert!(issue.is_ok());
    let missing_text = NewNewsletterIssue::parse("T".to_string(), "<p>x</p>".to_string(), " ".to_string());
    assert!(missing_text.is_err());
}
