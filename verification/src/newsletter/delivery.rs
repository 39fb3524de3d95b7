//! The bodies of a delivered issue: the issue's content with an unsubscribe
//! footer for its recipient.

use vstd::prelude::*;
use crate::text::concat3;

verus! {

/// The HTML body of an issue with the unsubscribe link under a rule.
pub fn html_with_footer(html_content: &str, unsubscribe_url: &str) -> (r: String)
    ensures
        r@ == html_content@
            + "\n<hr style=\"border:none;border-top:1px solid #eee;margin:30px 0\"><p style=\"color:#999;font-size:12px;text-align:center\"><a href=\""@
            + unsubscribe_url@ + "\" style=\"color:#999\">Unsubscribe</a></p>"@,
{
    let a = concat3(
        html_content,
        "\n<hr style=\"border:none;border-top:1px solid #eee;margin:30px 0\"><p style=\"color:#999;font-size:12px;text-align:center\"><a href=\"",
        unsubscribe_url,
    );
    crate::text::concat_str(a.as_str(), "\" style=\"color:#999\">Unsubscribe</a></p>")
}

/// The plain-text body of an issue with the unsubscribe address after a
/// separator.
pub fn text_with_footer(text_content: &str, unsubscribe_url: &str) -> (r: String)
    ensures
        r@ == text_content@ + "\n\n---\nUnsubscribe: "@ + unsubscribe_url@,
{
    concat3(text_content, "\n\n---\nUnsubscribe: ", unsubscribe_url)
}

} // verus!
