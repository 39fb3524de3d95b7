use hub::vault::shares::{
    has_share_cookie, revocation_makes_private, seal_share_request, share_access_at,
    share_cookie_accepted, share_cookie_header, share_cookie_value, share_request,
    signed_share_cookie, unlock_share, PasswordForm, ShareAccess, ShareForm, ShareRefusal,
    ShareRequest, UnlockOutcome,
};

fn cookie_header_for(share_id: &str, value: &str) -> String {
    format!("ptv_share_{share_id}={value}")
}

#[test]
fn a_share_cookie_is_accepted_until_it_expires() {
    let value = share_cookie_value("shr_abc", 1_000, "secret");
    let header = cookie_header_for("shr_abc", &value);
    assert!(share_cookie_accepted(Some(header.as_str()), "shr_abc", "secret", 999));
    assert!(!share_cookie_accepted(Some(header.as_str()), "shr_abc", "secret", 1_000));
    assert!(!share_cookie_accepted(Some(header.as_str()), "shr_abc", "secret", 5_000));
}

#[test]
fn a_share_cookie_value_names_share_expiry_and_signature() {
    let value = share_cookie_value("shr_abc", 1_000, "secret");
    let (payload, signature) = value.rsplit_once('.').unwrap();
    assert_eq!(payload, "shr_abc:1000");
    assert_eq!(signature.len(), 64);
    assert!(signature.chars().all(|c| c.is_ascii_hexdigit()));
    assert_eq!(signature, hub::vault::auth::sign("shr_abc:1000", "secret"));
}

#[test]
fn a_negative_expiry_is_written_with_its_sign() {
    let value = share_cookie_value("shr_x", -5, "k");
    assert!(value.starts_with("shr_x:-5."));
    let header = cookie_header_for("shr_x", &value);
    assert!(share_cookie_accepted(Some(header.as_str()), "shr_x", "k", -6));
    assert!(!share_cookie_accepted(Some(header.as_str()), "shr_x", "k", -5));
}

#[test]
fn a_cookie_signed_with_another_secret_is_refused() {
    let value = share_cookie_value("shr_abc", 1_000, "other");
    let header = cookie_header_for("shr_abc", &value);
    assert!(!share_cookie_accepted(Some(header.as_str()), "shr_abc", "secret", 0));
}

#[test]
fn a_cookie_for_another_share_is_refused() {
    let value = share_cookie_value("shr_other", 1_000, "secret");
    let header = format!("ptv_share_shr_abc={value}");
    assert!(!share_cookie_accepted(Some(header.as_str()), "shr_abc", "secret", 0));
}

#[test]
fn a_tampered_expiry_is_refused() {
    let value = share_cookie_value("shr_abc", 1_000, "secret");
    let tampered = value.replacen(":1000.", ":9999.", 1);
    let header = cookie_header_for("shr_abc", &tampered);
    assert!(!share_cookie_accepted(Some(header.as_str()), "shr_abc", "secret", 2_000));
}

#[test]
fn the_share_cookie_is_found_among_other_cookies() {
    let value = share_cookie_value("shr_abc", 1_000, "secret");
    let header = format!("theme=dark;  ptv_share_shr_abc={value} ; lang=en");
    assert!(share_cookie_accepted(Some(header.as_str()), "shr_abc", "secret", 10));
}

#[test]
fn missing_or_malformed_cookies_are_refused() {
    assert!(!share_cookie_accepted(None, "shr_abc", "secret", 0));
    assert!(!share_cookie_accepted(Some("theme=dark"), "shr_abc", "secret", 0));
    assert!(!share_cookie_accepted(Some("ptv_share_shr_abc=nodot"), "shr_abc", "secret", 0));
    assert!(!share_cookie_accepted(Some("ptv_share_shr_abc=nocolon.abc"), "shr_abc", "secret", 0));
    assert!(!share_cookie_accepted(
        Some("ptv_share_shr_abc=shr_abc:soon.abc"),
        "shr_abc",
        "secret",
        0
    ));
}

#[test]
fn a_freshly_signed_cookie_is_accepted_now() {
    let value = signed_share_cookie("shr_abc", "secret");
    let header = cookie_header_for("shr_abc", &value);
    assert!(has_share_cookie(Some(header.as_str()), "shr_abc", "secret"));
    assert!(!has_share_cookie(Some(header.as_str()), "shr_abc", "wrong"));
}

#[test]
fn the_set_cookie_header_lasts_thirty_days() {
    assert_eq!(
        share_cookie_header("shr_abc", "v"),
        "ptv_share_shr_abc=v; HttpOnly; SameSite=Lax; Path=/; Max-Age=2592000"
    );
}

fn form(kind: &str, password: Option<&str>) -> ShareForm {
    ShareForm { share_kind: kind.to_string(), password: password.map(str::to_string) }
}

#[test]
fn with_public_sharing_off_only_private_is_accepted() {
    assert_eq!(share_request(false, form("private", None)), Ok(ShareRequest::Private));
    assert_eq!(share_request(false, form("public", None)), Err(ShareRefusal::SharingDisabled));
    assert_eq!(share_request(false, form("bogus", None)), Err(ShareRefusal::SharingDisabled));
    assert_eq!(
        share_request(false, form("password-protected", Some("pw"))),
        Err(ShareRefusal::SharingDisabled)
    );
}

#[test]
fn share_kinds_are_read_with_public_sharing_on() {
    assert_eq!(share_request(true, form("public", None)), Ok(ShareRequest::Public));
    assert_eq!(share_request(true, form("secret-link", None)), Ok(ShareRequest::SecretLink));
    assert_eq!(
        share_request(true, form("password-protected", Some("pw"))),
        Ok(ShareRequest::PasswordProtected("pw".to_string()))
    );
    assert_eq!(
        share_request(true, form("password-protected", Some(""))),
        Err(ShareRefusal::PasswordRequired)
    );
    assert_eq!(
        share_request(true, form("password-protected", None)),
        Err(ShareRefusal::PasswordRequired)
    );
    assert_eq!(share_request(true, form("bogus", None)), Err(ShareRefusal::UnknownKind));
}

#[test]
fn refusals_carry_status_and_message() {
    assert_eq!(ShareRefusal::SharingDisabled.status(), 403);
    assert_eq!(ShareRefusal::SharingDisabled.message(), "public sharing is disabled");
    assert_eq!(ShareRefusal::PasswordRequired.status(), 400);
    assert_eq!(ShareRefusal::PasswordRequired.message(), "password is required");
    assert_eq!(ShareRefusal::UnknownKind.status(), 400);
    assert_eq!(ShareRefusal::UnknownKind.message(), "unknown share kind");
    assert_eq!(ShareRefusal::HashFailed.status(), 500);
}

#[test]
fn a_password_share_unlocks_with_its_password_only() {
    let sealed = seal_share_request(ShareRequest::PasswordProtected("hunter2".to_string())).unwrap();
    let hash = match sealed {
        ShareRequest::PasswordProtected(h) => h,
        other => panic!("unexpected {other:?}"),
    };
    assert_ne!(hash, "hunter2");
    assert!(hash.starts_with("$argon2"));
    let good = PasswordForm { password: "hunter2".to_string() };
    match unlock_share(Some(hash.as_str()), &good, "shr_abc", "secret") {
        UnlockOutcome::Unlocked(header) => {
            assert!(header.starts_with("ptv_share_shr_abc=shr_abc:"));
            assert!(header.ends_with("; HttpOnly; SameSite=Lax; Path=/; Max-Age=2592000"));
            let cookie = header.split(';').next().unwrap();
            assert!(has_share_cookie(Some(cookie), "shr_abc", "secret"));
        }
        other => panic!("unexpected {other:?}"),
    }
    let bad = PasswordForm { password: "wrong".to_string() };
    assert_eq!(unlock_share(Some(hash.as_str()), &bad, "shr_abc", "secret"), UnlockOutcome::WrongPassword);
    assert_eq!(unlock_share(None, &good, "shr_abc", "secret"), UnlockOutcome::NotProtected);
    assert_eq!(
        unlock_share(Some("not a hash"), &good, "shr_abc", "secret"),
        UnlockOutcome::WrongPassword
    );
}

#[test]
fn sealing_leaves_other_requests_alone() {
    assert_eq!(seal_share_request(ShareRequest::Public), Ok(ShareRequest::Public));
    assert_eq!(seal_share_request(ShareRequest::SecretLink), Ok(ShareRequest::SecretLink));
}

#[test]
fn visitors_of_a_share_see_what_its_state_allows() {
    let value = share_cookie_value("shr_abc", 100, "secret");
    let header = cookie_header_for("shr_abc", &value);
    assert_eq!(share_access_at(true, "public", None, "shr_abc", "secret", 0), ShareAccess::Gone);
    assert_eq!(share_access_at(false, "public", None, "shr_abc", "secret", 0), ShareAccess::Show);
    assert_eq!(
        share_access_at(false, "password-protected", None, "shr_abc", "secret", 0),
        ShareAccess::AskPassword
    );
    assert_eq!(
        share_access_at(false, "password-protected", Some(header.as_str()), "shr_abc", "secret", 50),
        ShareAccess::Show
    );
    assert_eq!(
        share_access_at(false, "password-protected", Some(header.as_str()), "shr_abc", "secret", 150),
        ShareAccess::AskPassword
    );
}

#[test]
fn revoking_a_public_share_makes_the_thread_private() {
    assert!(revocation_makes_private("public"));
    assert!(!revocation_makes_private("secret-link"));
    assert!(!revocation_makes_private("password-protected"));
}
