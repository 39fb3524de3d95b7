//! The newsletter's machine-facing API: request bodies, the bearer check of
//! the publishing endpoint and the decisions of the subscribe endpoint.

use vstd::prelude::*;
use crate::authentication::{bearer_matches, bearer_token};
use crate::domain::subscriber_name::{valid_subscriber_name, SubscriberName};
use crate::json::opt_seq;
use crate::text::{str_eq, trim};
use crate::vault::shares::opt_str;

verus! {

/// The base URL under which the application is reachable.
#[derive(Debug, Clone)]
pub struct ApplicationBaseUrl(pub String);

/// Body of a publish request.
#[derive(Debug, Clone)]
pub struct CreateNewsletterRequest {
    pub title: String,
    pub html_content: String,
    pub text_content: String,
}

/// Body of a subscribe request.
#[derive(Debug, Clone)]
pub struct ApiSubscribeRequest {
    pub email: String,
    pub name: Option<String>,
}

/// Checks the `Authorization` header value of a publish request against the
/// configured token (plain comparison, as the publishing endpoint does).
pub fn publish_token_accepted(header: Option<&str>, expected_token: &str) -> (r: bool)
    ensures
        r == bearer_matches(header, expected_token@),
{
    match bearer_token(header) {
        None => false,
        Some(t) => str_eq(t.as_str(), expected_token),
    }
}

/// What the subscribe endpoint does for an address, given the status of the
/// subscriber already stored under it.
#[derive(Debug, Clone, Copy, PartialEq, Eq)]
pub enum SubscribeStep {
    /// Confirmed already: send the "already subscribed" email.
    AlreadySubscribed,
    /// Known but unconfirmed: store a new token and resend the confirmation.
    ResendConfirmation,
    /// Unknown: store the subscriber and a token, send the confirmation.
    CreateSubscriber,
}

/// The step for an address whose stored subscriber has `existing_status`
/// (`None` when there is none).
pub fn subscribe_step(existing_status: Option<&str>) -> (r: SubscribeStep)
    ensures
        match existing_status {
            None => r == SubscribeStep::CreateSubscriber,
            Some(s) => if s@ == "confirmed"@ {
                r == SubscribeStep::AlreadySubscribed
            } else {
                r == SubscribeStep::ResendConfirmation
            },
        },
{
    match existing_status {
        None => SubscribeStep::CreateSubscriber,
        Some(s) => if str_eq(s, "confirmed") {
            SubscribeStep::AlreadySubscribed
        } else {
            SubscribeStep::ResendConfirmation
        },
    }
}

/// The `status` field of the successful reply for each step.
pub open spec fn subscribe_status_text(step: SubscribeStep) -> Seq<char> {
    match step {
        SubscribeStep::AlreadySubscribed => "subscribed"@,
        SubscribeStep::ResendConfirmation => "confirmation_resent"@,
        SubscribeStep::CreateSubscriber => "confirmation_sent"@,
    }
}

/// The `status` field of the successful reply for `step`.
pub fn subscribe_status(step: SubscribeStep) -> (r: &'static str)
    ensures
        r@ == subscribe_status_text(step),
{
    match step {
        SubscribeStep::AlreadySubscribed => "subscribed",
        SubscribeStep::ResendConfirmation => "confirmation_resent",
        SubscribeStep::CreateSubscriber => "confirmation_sent",
    }
}

/// What the subscribe endpoint decides before it stores anything: the name
/// is checked first, then the address (`email_check`, the verdict of the
/// address check, with its message), each refusal answered 400 with its
/// message; then the step for the subscriber stored under the address, whose
/// status is `existing_status`.
pub open spec fn subscribe_decision_of(
    name: Option<Seq<char>>,
    email_check: Result<(), Seq<char>>,
    existing_status: Option<Seq<char>>,
) -> Result<SubscribeStep, Seq<char>> {
    let name_error = match name {
        Some(v) => if trim(v).len() > 0 && !valid_subscriber_name(v) {
            Some(v + " is not a valid subscriber name"@)
        } else {
            None
        },
        None => None,
    };
    match name_error {
        Some(e) => Err(e),
        None => match email_check {
            Err(e) => Err(e),
            Ok(()) => Ok(
                match existing_status {
                    None => SubscribeStep::CreateSubscriber,
                    Some(s) => if s == "confirmed"@ {
                        SubscribeStep::AlreadySubscribed
                    } else {
                        SubscribeStep::ResendConfirmation
                    },
                },
            ),
        },
    }
}

/// The decision of the subscribe endpoint: the step to take, or the message
/// of the 400 reply.
pub fn subscribe_decision(
    name: Option<String>,
    email_check: Result<(), String>,
    existing_status: Option<&str>,
) -> (r: Result<SubscribeStep, String>)
    ensures
        match r {
            Ok(step) => subscribe_decision_of(opt_seq(name), result_unit_view(email_check), opt_str(existing_status)) == Ok::<SubscribeStep, Seq<char>>(step),
            Err(e) => subscribe_decision_of(opt_seq(name), result_unit_view(email_check), opt_str(existing_status)) == Err::<SubscribeStep, Seq<char>>(e@),
        },
{
    match SubscriberName::parse(name) {
        Err(e) => return Err(e),
        Ok(_) => {},
    }
    match email_check {
        Err(e) => return Err(e),
        Ok(()) => {},
    }
    Ok(subscribe_step(existing_status))
}

/// A check's verdict with its message as plain text.
pub open spec fn result_unit_view(r: Result<(), String>) -> Result<(), Seq<char>> {
    match r {
        Ok(()) => Ok(()),
        Err(e) => Err(e@),
    }
}

} // verus!
