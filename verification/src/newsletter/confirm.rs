//! Confirming a subscription from the link in the confirmation email.

use vstd::prelude::*;
use crate::text::str_eq;
use crate::vault::shares::opt_str;

verus! {

/// The query of the confirmation link.
#[derive(Debug, Clone)]
pub struct Parameters {
    pub subscription_token: String,
}

/// What confirming a subscriber does, given its stored status.
#[derive(Debug, Clone, Copy, PartialEq, Eq)]
pub enum ConfirmStep {
    /// Already confirmed: nothing to write.
    AlreadyConfirmed,
    /// Pending: set the status to `confirmed`.
    MarkConfirmed,
    /// No such subscriber: an error.
    Missing,
}

/// The step for a subscriber whose stored status is `status` (`None` when
/// there is no such subscriber).
pub open spec fn confirm_step_of(status: Option<Seq<char>>) -> ConfirmStep {
    match status {
        Some(s) => if s == "confirmed"@ {
            ConfirmStep::AlreadyConfirmed
        } else {
            ConfirmStep::MarkConfirmed
        },
        None => ConfirmStep::Missing,
    }
}

/// The stored status after the step: `confirmed` once the subscriber exists.
pub open spec fn status_after(status: Option<Seq<char>>) -> Option<Seq<char>> {
    match confirm_step_of(status) {
        ConfirmStep::Missing => None,
        _ => Some("confirmed"@),
    }
}

/// Decides how to confirm a subscriber from its stored status.
pub fn confirm_step(status: Option<&str>) -> (r: ConfirmStep)
    ensures
        r == confirm_step_of(opt_str(status)),
{
    match status {
        Some(s) => if str_eq(s, "confirmed") {
            ConfirmStep::AlreadyConfirmed
        } else {
            ConfirmStep::MarkConfirmed
        },
        None => ConfirmStep::Missing,
    }
}

/// Confirming is idempotent: after one confirmation an existing subscriber
/// is confirmed, a second confirmation writes nothing, and the status stays
/// the same.
pub proof fn lemma_confirmation_idempotent(status: Option<Seq<char>>)
    ensures
        status is Some ==> status_after(status) == Some("confirmed"@),
        status is Some ==> confirm_step_of(status_after(status)) == ConfirmStep::AlreadyConfirmed,
        status_after(status_after(status)) == status_after(status),
{
}

/// How the confirmation link is answered.
#[derive(Debug, Clone, Copy, PartialEq, Eq)]
pub enum ConfirmReply {
    /// The token is not in the format of a subscription token.
    BadTokenFormat,
    /// No subscriber has this token.
    UnknownToken,
    /// The subscription is confirmed (or already was).
    Confirmed,
    /// Looking the token up or confirming failed.
    Failed,
}

impl ConfirmReply {
    /// The HTTP status of the reply.
    pub fn status(self) -> (r: u16)
        ensures
            r == match self {
                ConfirmReply::BadTokenFormat => 400u16,
                ConfirmReply::UnknownToken => 400u16,
                ConfirmReply::Confirmed => 200u16,
                ConfirmReply::Failed => 500u16,
            },
    {
        match self {
            ConfirmReply::BadTokenFormat => 400,
            ConfirmReply::UnknownToken => 400,
            ConfirmReply::Confirmed => 200,
            ConfirmReply::Failed => 500,
        }
    }

    /// The text of the reply.
    pub fn message(self) -> (r: &'static str)
        ensures
            r@ == match self {
                ConfirmReply::BadTokenFormat => "Invalid confirmation token format. The token must be 25 alphanumeric characters."@,
                ConfirmReply::UnknownToken => "Invalid confirmation token. The token may have expired or does not exist."@,
                ConfirmReply::Confirmed => "Your subscription has been confirmed!"@,
                ConfirmReply::Failed => "Failed to confirm subscription. Please try again later."@,
            },
    {
        match self {
            ConfirmReply::BadTokenFormat => "Invalid confirmation token format. The token must be 25 alphanumeric characters.",
            ConfirmReply::UnknownToken => "Invalid confirmation token. The token may have expired or does not exist.",
            ConfirmReply::Confirmed => "Your subscription has been confirmed!",
            ConfirmReply::Failed => "Failed to confirm subscription. Please try again later.",
        }
    }
}

/// The reply to a confirmation link. A malformed token is refused before any
/// lookup. `lookup` is what the lookups found: the step called for by the
/// status of the subscriber that holds the token, `None` when no subscriber
/// holds it, or the failure of either query; `written` is the outcome of
/// marking the subscriber confirmed, when that is the step.
pub fn confirm_reply(
    token_well_formed: bool,
    lookup: Result<Option<ConfirmStep>, ()>,
    written: Result<(), ()>,
) -> (r: ConfirmReply)
    ensures
        !token_well_formed ==> r == ConfirmReply::BadTokenFormat,
        token_well_formed ==> r == match lookup {
            Err(_) => ConfirmReply::Failed,
            Ok(None) => ConfirmReply::UnknownToken,
            Ok(Some(ConfirmStep::Missing)) => ConfirmReply::Failed,
            Ok(Some(ConfirmStep::AlreadyConfirmed)) => ConfirmReply::Confirmed,
            Ok(Some(ConfirmStep::MarkConfirmed)) => match written {
                Ok(()) => ConfirmReply::Confirmed,
                Err(()) => ConfirmReply::Failed,
            },
        },
{
    if !token_well_formed {
        return ConfirmReply::BadTokenFormat;
    }
    match lookup {
        Err(_) => ConfirmReply::Failed,
        Ok(None) => ConfirmReply::UnknownToken,
        Ok(Some(ConfirmStep::Missing)) => ConfirmReply::Failed,
        Ok(Some(ConfirmStep::AlreadyConfirmed)) => ConfirmReply::Confirmed,
        Ok(Some(ConfirmStep::MarkConfirmed)) => match written {
            Ok(()) => ConfirmReply::Confirmed,
            Err(()) => ConfirmReply::Failed,
        },
    }
}

} // verus!
