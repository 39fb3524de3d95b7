use hub::newsletter::delivery::{html_with_footer, text_with_footer};

#[test]
fn the_text_body_ends_with_the_unsubscribe_address() {
    let url = "https://h/unsubscribe?token=t";
    assert_eq!(
        text_with_footer("Plain body", url),
        format!("Plain body\n\n---\nUnsubscribe: {url}")
    );
}

#[test]
fn the_html_body_ends_with_an_unsubscribe_link() {
    let html = html_with_footer("<p>HTML body</p>", "https://h/u");
    assert!(html.starts_with("<p>HTML body</p>\n<hr style="));
    assert!(html.ends_with("<a href=\"https://h/u\" style=\"color:#999\">Unsubscribe</a></p>"));
}
