//! The values that fill the newsletter's email templates.

use vstd::prelude::*;

verus! {

/// Values of the HTML confirmation email.
#[derive(Debug, Clone)]
pub struct ConfirmationEmailHtml {
    pub subscriber_name: String,
    pub confirmation_link: String,
}

/// Values of the plain-text confirmation email.
#[derive(Debug, Clone)]
pub struct ConfirmationEmailText {
    pub subscriber_name: String,
    pub confirmation_link: String,
}

/// Values of the HTML "already subscribed" email.
#[derive(Debug, Clone)]
pub struct AlreadySubscribedEmailHtml {
    pub subscriber_name: String,
}

/// Values of the plain-text "already subscribed" email.
#[derive(Debug, Clone)]
pub struct AlreadySubscribedEmailText {
    pub subscriber_name: String,
}

/// Values of the HTML blog-post announcement.
#[derive(Debug, Clone)]
pub struct BlogPostEmailHtml {
    pub title: String,
    pub description: String,
    pub post_url: String,
}

/// Values of the plain-text blog-post announcement.
#[derive(Debug, Clone)]
pub struct BlogPostEmailText {
    pub title: String,
    pub description: String,
    pub post_url: String,
}

} // verus!
