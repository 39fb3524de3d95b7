use hub::domain::subscriber_name::SubscriberName;

#[test]
fn a_256_grapheme_long_name_is_valid() {
    let name = Some("ё".repeat(256));
    assert!(SubscriberName::parse(name).is_ok());
}

#[test]
fn a_name_longer_than_256_graphemes_is_rejected() {
    let name = Some("a".repeat(257));
    assert!(SubscriberName::parse(name).is_err());
}

#[test]
fn whitespace_only_names_return_none() {
    let name = Some(" ".to_string());
    let result = SubscriberName::parse(name);
    assert!(result.is_ok());
    assert!(result.unwrap().is_none());
}

#[test]
fn empty_string_returns_none() {
    let name = Some("".to_string());
    let result = SubscriberName::parse(name);
    assert!(result.is_ok());
    assert!(result.unwrap().is_none());
}

#[test]
fn none_returns_none() {
    let result = SubscriberName::parse(None);
    assert!(result.is_ok());
    assert!(result.unwrap().is_none());
}

#[test]
fn names_containing_an_invalid_character_are_rejected() {
    for name in &['/', '(', ')', '"', '<', '>', '\\', '{', '}'] {
        let name = Some(name.to_string());
        assert!(SubscriberName::parse(name).is_err());
    }
}

#[test]
fn a_valid_name_is_parsed_successfully() {
    let name = Some("Ursula Le Guin".to_string());
    assert!(SubscriberName::parse(name).is_ok());
}

#[test]
fn a_parsed_name_keeps_its_text() {
    let parsed = SubscriberName::parse(Some("Ursula Le Guin".to_string()))
        .unwrap()
        .unwrap();
    assert_eq!(parsed.as_str(), "Ursula Le Guin");
}

#[test]
fn the_error_names_the_rejected_value() {
    let err = SubscriberName::parse(Some("a/b".to_string())).unwrap_err();
    assert_eq!(err, "a/b is not a valid subscriber name");
}

#[test]
fn combining_marks_count_as_one_grapheme() {
    // "e" followed by a combining acute accent is one grapheme of two chars
    let name = "e\u{301}".repeat(256);
    assert!(SubscriberName::parse(Some(name)).is_ok());
    let longer = "e\u{301}".repeat(257);
    assert!(SubscriberName::parse(Some(longer)).is_err());
}
