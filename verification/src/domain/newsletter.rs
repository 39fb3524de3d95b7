//! Newsletter issue value types.

use vstd::prelude::*;
use crate::domain::memory::trimmed_within;
use crate::text::{byte_len, concat3, decimal, is_err_with, lemma_trim_shape, owned, str_byte_len, trim, trim_str, usize_to_decimal};

verus! {

/// Largest accepted title, in bytes.
pub const NEWSLETTER_TITLE_MAX_LEN: usize = 512;
/// Largest accepted HTML or text body, in bytes.
pub const NEWSLETTER_BODY_MAX_LEN: usize = 1024 * 1024;

/// A newsletter title: trimmed, non-empty, at most 512 bytes.
#[derive(Debug)]
pub struct NewsletterTitle(String);

impl View for NewsletterTitle {
    type V = Seq<char>;

    closed spec fn view(&self) -> Seq<char> {
        self.0@
    }
}

impl NewsletterTitle {
    #[verifier::type_invariant]
    closed spec fn inv(self) -> bool {
        self.0@ == trim(self.0@) && trimmed_within(self.0@, 512)
    }

    /// Trims `value` and accepts it when the result is non-empty and at most 512 bytes.
    pub fn parse(value: String) -> (r: Result<Self, String>)
        ensures
            r is Ok <==> trimmed_within(value@, 512),
            r matches Ok(t) ==> t@ == trim(value@),
            trim(value@).len() == 0 ==> is_err_with(r, "newsletter title is required"@),
            trim(value@).len() > 0 && !trimmed_within(value@, 512) ==> is_err_with(
                r,
                "newsletter title must not exceed 512 bytes"@,
            ),
    {
        let t = trim_str(value.as_str());
        if t.as_str().is_empty() {
            return Err(owned("newsletter title is required"));
        }
        if str_byte_len(t.as_str()) > NEWSLETTER_TITLE_MAX_LEN {
            return Err(owned("newsletter title must not exceed 512 bytes"));
        }
        proof {
            lemma_trim_shape(value@);
        }
        Ok(NewsletterTitle(t))
    }

    pub fn as_str(&self) -> (r: &str)
        ensures
            r@ == self@,
            r@ == trim(r@),
            trimmed_within(r@, 512),
    {
        proof {
            use_type_invariant(self);
        }
        self.0.as_str()
    }

    /// The title as an owned string (its display form).
    pub fn to_string(&self) -> (r: String)
        ensures
            r@ == self@,
    {
        owned(self.0.as_str())
    }
}

/// A body is kept unchanged when it has a non-whitespace character and at
/// most `max` bytes.
pub open spec fn body_ok(value: Seq<char>, max: nat) -> bool {
    trim(value).len() > 0 && byte_len(value) <= max
}

/// Checks a newsletter body: not blank, at most `max_len` bytes; the value
/// itself is kept untrimmed.
pub fn parse_body(value: String, field: &str, max_len: usize) -> (r: Result<String, String>)
    ensures
        r is Ok <==> body_ok(value@, max_len as nat),
        r matches Ok(v) ==> v@ == value@,
        r matches Err(e) ==> e@ == body_error(value@, field@, max_len as nat),
{
    let t = trim_str(value.as_str());
    if t.as_str().is_empty() {
        return Err(concat3("newsletter ", field, " is required"));
    }
    if str_byte_len(value.as_str()) > max_len {
        let n = usize_to_decimal(max_len);
        let head = concat3("newsletter ", field, " must not exceed ");
        return Err(concat3(head.as_str(), n.as_str(), " bytes"));
    }
    Ok(value)
}

/// HTML body of an issue: not blank, at most 1 MiB.
#[derive(Debug)]
pub struct NewsletterHtmlContent(String);

impl View for NewsletterHtmlContent {
    type V = Seq<char>;

    closed spec fn view(&self) -> Seq<char> {
        self.0@
    }
}

impl NewsletterHtmlContent {
    #[verifier::type_invariant]
    closed spec fn inv(self) -> bool {
        body_ok(self.0@, 1024 * 1024)
    }

    pub fn parse(value: String) -> (r: Result<Self, String>)
        ensures
            r is Ok <==> body_ok(value@, 1024 * 1024),
            r matches Ok(c) ==> c@ == value@,
            r matches Err(e) ==> e@ == body_error(value@, "HTML content"@, 1024 * 1024),
    {
        match parse_body(value, "HTML content", NEWSLETTER_BODY_MAX_LEN) {
            Ok(v) => Ok(NewsletterHtmlContent(v)),
            Err(e) => Err(e),
        }
    }

    pub fn as_str(&self) -> (r: &str)
        ensures
            r@ == self@,
            body_ok(r@, 1024 * 1024),
    {
        proof {
            use_type_invariant(self);
        }
        self.0.as_str()
    }
}

/// Plain-text body of an issue: not blank, at most 1 MiB.
#[derive(Debug)]
pub struct NewsletterTextContent(String);

impl View for NewsletterTextContent {
    type V = Seq<char>;

    closed spec fn view(&self) -> Seq<char> {
        self.0@
    }
}

impl NewsletterTextContent {
    #[verifier::type_invariant]
    closed spec fn inv(self) -> bool {
        body_ok(self.0@, 1024 * 1024)
    }

    pub fn parse(value: String) -> (r: Result<Self, String>)
        ensures
            r is Ok <==> body_ok(value@, 1024 * 1024),
            r matches Ok(c) ==> c@ == value@,
            r matches Err(e) ==> e@ == body_error(value@, "text content"@, 1024 * 1024),
    {
        match parse_body(value, "text content", NEWSLETTER_BODY_MAX_LEN) {
            Ok(v) => Ok(NewsletterTextContent(v)),
            Err(e) => Err(e),
        }
    }

    pub fn as_str(&self) -> (r: &str)
        ensures
            r@ == self@,
            body_ok(r@, 1024 * 1024),
    {
        proof {
            use_type_invariant(self);
        }
        self.0.as_str()
    }
}

/// The error `parse_body` reports for an unacceptable body (by its text).
pub open spec fn body_error(value: Seq<char>, field: Seq<char>, max: nat) -> Seq<char> {
    if trim(value).len() == 0 {
        "newsletter "@ + field + " is required"@
    } else {
        "newsletter "@ + field + " must not exceed "@ + decimal(max) + " bytes"@
    }
}

/// A complete issue ready to be published.
#[derive(Debug)]
pub struct NewNewsletterIssue {
    pub title: NewsletterTitle,
    pub html_content: NewsletterHtmlContent,
    pub text_content: NewsletterTextContent,
}

/// The error message of the first part of an issue that is rejected, checked
/// in the order title, HTML body, text body.
pub open spec fn issue_error(title: Seq<char>, html: Seq<char>, text: Seq<char>) -> Seq<char> {
    if !trimmed_within(title, 512) {
        if trim(title).len() == 0 {
            "newsletter title is required"@
        } else {
            "newsletter title must not exceed 512 bytes"@
        }
    } else if !body_ok(html, 1024 * 1024) {
        body_error(html, "HTML content"@, 1024 * 1024)
    } else {
        body_error(text, "text content"@, 1024 * 1024)
    }
}

impl NewNewsletterIssue {
    /// Validates the three parts of an issue; the first failure is reported.
    pub fn parse(title: String, html_content: String, text_content: String) -> (r: Result<
        Self,
        String,
    >)
        ensures
            r is Ok <==> trimmed_within(title@, 512) && body_ok(html_content@, 1024 * 1024)
                && body_ok(text_content@, 1024 * 1024),
            r matches Ok(i) ==> i.title@ == trim(title@) && i.html_content@ == html_content@
                && i.text_content@ == text_content@,
            r matches Err(e) ==> e@ == issue_error(title@, html_content@, text_content@),
    {
        let ghost (t0, h0, x0) = (title@, html_content@, text_content@);
        let title = match NewsletterTitle::parse(title) {
            Ok(t) => t,
            Err(e) => return Err(e),
        };
        let html_content = match NewsletterHtmlContent::parse(html_content) {
            Ok(h) => h,
            Err(e) => return Err(e),
        };
        let text_content = match NewsletterTextContent::parse(text_content) {
            Ok(x) => x,
            Err(e) => return Err(e),
        };
        Ok(NewNewsletterIssue { title, html_content, text_content })
    }
}

} // verus!
