use hub::pastebin::{
    check_api_paste, line_count, paste_id_of_path, preview, public_url, wants_plaintext,
    PasteRejection,
};

#[test]
fn public_urls_join_base_and_id_with_one_slash() {
    assert_eq!(public_url("https://hub.example.com/", "abc12345"), "https://hub.example.com/p/abc12345");
    assert_eq!(public_url("https://hub.example.com//", "x"), "https://hub.example.com/p/x");
    assert_eq!(public_url("http://h", "x"), "http://h/p/x");
}

#[test]
fn line_count_is_at_least_one() {
    assert_eq!(line_count(""), 1);
    assert_eq!(line_count("one"), 1);
    assert_eq!(line_count("one\n"), 1);
    assert_eq!(line_count("one\ntwo"), 2);
    assert_eq!(line_count("one\ntwo\n"), 2);
    assert_eq!(line_count("\n\n\n"), 3);
}

#[test]
fn preview_collapses_whitespace() {
    assert_eq!(preview("  fn main()\n\t{ }  "), "fn main() { }");
}

#[test]
fn preview_of_a_blank_paste_says_so() {
    assert_eq!(preview(""), "(blank paste)");
    assert_eq!(preview(" \n\t "), "(blank paste)");
}

#[test]
fn long_previews_are_cut_after_120_characters() {
    let long = "x".repeat(130);
    let p = preview(&long);
    assert_eq!(p, format!("{}…", "x".repeat(120)));
    let exact = "y".repeat(120);
    assert_eq!(preview(&exact), exact);
}

#[test]
fn command_line_clients_get_plain_text() {
    assert!(wants_plaintext(None, None));
    assert!(wants_plaintext(Some("curl/8.4.0"), None));
    assert!(wants_plaintext(Some("Wget/1.21"), None));
    assert!(wants_plaintext(Some("HTTPie/3.2"), None));
    assert!(wants_plaintext(Some("curl"), None));
    assert!(!wants_plaintext(Some("Mozilla/5.0"), None));
    assert!(!wants_plaintext(Some("Mozilla/5.0"), Some("text/html")));
    assert!(wants_plaintext(Some("Mozilla/5.0"), Some("text/html, text/plain;q=0.9")));
}

#[test]
fn the_paste_id_drops_an_extension() {
    assert_eq!(paste_id_of_path("abc12345.txt"), "abc12345");
    assert_eq!(paste_id_of_path("abc12345"), "abc12345");
    assert_eq!(paste_id_of_path("a.b.c"), "a");
}

#[test]
fn api_pastes_need_the_token_and_a_reasonable_body() {
    let ok = "Bearer tok";
    assert_eq!(check_api_paste(None, "tok", 10), Err(PasteRejection::Unauthorized));
    assert_eq!(check_api_paste(Some("Bearer nope"), "tok", 10), Err(PasteRejection::Unauthorized));
    assert_eq!(check_api_paste(Some(ok), "tok", 0), Err(PasteRejection::Empty));
    assert_eq!(check_api_paste(Some(ok), "tok", 256 * 1024 + 1), Err(PasteRejection::TooLarge));
    assert_eq!(check_api_paste(Some(ok), "tok", 256 * 1024), Ok(()));
    assert_eq!(check_api_paste(Some(ok), "tok", 1), Ok(()));
}
