//! Confirming a subscription with the token from the confirmation e-mail.

use crate::routes::subscriptions::{INTERNAL_SERVER_ERROR, OK};
use crate::subscribers::{confirmed, Subscribers};
use crate::text::{chain_of, failure_chain, texts};
use vstd::prelude::*;

verus! {

/// The query of a confirmation request.
#[derive(Debug)]
pub struct Parameters {
    pub subscription_token: String,
}

/// The HTTP status for a request without the right to be served.
pub const UNAUTHORIZED: u16 = 401;

/// The HTTP status for something that is not there.
pub const NOT_FOUND: u16 = 404;

/// Why a confirmation failed.
#[derive(Debug)]
pub enum SubscriptionConfirmError {
    /// No subscriber belongs to the token.
    UnauthorizedError,
    /// The subscriber is gone.
    NotFoundError,
    /// Something behind the service failed. The texts are the failure and
    /// its causes, outermost first.
    UnexpectedError(Vec<String>),
}

impl SubscriptionConfirmError {
    /// The HTTP status that answers this error.
    pub fn status_code(&self) -> (code: u16)
        ensures
            code == match *self {
                SubscriptionConfirmError::UnauthorizedError => UNAUTHORIZED,
                SubscriptionConfirmError::NotFoundError => NOT_FOUND,
                SubscriptionConfirmError::UnexpectedError(_) => INTERNAL_SERVER_ERROR,
            },
    {
        match self {
            SubscriptionConfirmError::UnauthorizedError => UNAUTHORIZED,
            SubscriptionConfirmError::NotFoundError => NOT_FOUND,
            SubscriptionConfirmError::UnexpectedError(_) => INTERNAL_SERVER_ERROR,
        }
    }

    /// The text that describes this error.
    pub fn message(&self) -> (text: String)
        ensures
            text@ == match *self {
                SubscriptionConfirmError::UnauthorizedError => "you cannot access this page"@,
                SubscriptionConfirmError::NotFoundError => "subscriber was not found"@,
                SubscriptionConfirmError::UnexpectedError(chain) => if chain@.len() > 0 {
                    chain@[0]@
                } else {
                    Seq::<char>::empty()
                },
            },
    {
        match self {
            SubscriptionConfirmError::UnauthorizedError => String::from_str(
                "you cannot access this page",
            ),
            SubscriptionConfirmError::NotFoundError => String::from_str("subscriber was not found"),
            SubscriptionConfirmError::UnexpectedError(chain) => {
                if chain.len() > 0 {
                    chain[0].clone()
                } else {
                    String::new()
                }
            },
        }
    }
}

/// What the store answered when it was asked for the subscriber of a token,
/// or asked to mark a subscriber as confirmed.
#[derive(Debug)]
pub enum StoreReply<T> {
    /// The store answered.
    Answered(T),
    /// The store failed; the text says how.
    Failed(String),
}

/// Decides how a confirmation goes on after the token was looked up: with
/// the subscriber that it belongs to, or with the error to answer.
pub fn after_token_lookup(reply: StoreReply<Option<u128>>) -> (step: Result<
    u128,
    SubscriptionConfirmError,
>)
    ensures
        match reply {
            StoreReply::Answered(Some(id)) => step == Ok::<u128, SubscriptionConfirmError>(id),
            StoreReply::Answered(None) => step is Err && step->Err_0 is UnauthorizedError,
            StoreReply::Failed(cause) => step is Err && step->Err_0 is UnexpectedError
                && texts(step->Err_0->UnexpectedError_0@) == failure_chain(
                "Failed to find the requested user"@,
                cause@,
            ),
        },
{
    match reply {
        StoreReply::Answered(Some(id)) => Ok(id),
        StoreReply::Answered(None) => Err(SubscriptionConfirmError::UnauthorizedError),
        StoreReply::Failed(cause) => Err(
            SubscriptionConfirmError::UnexpectedError(
                chain_of("Failed to find the requested user", cause),
            ),
        ),
    }
}

/// Decides the answer after the subscriber was marked as confirmed: status
/// 200, or the error to answer.
pub fn after_confirmation(reply: StoreReply<()>) -> (answer: Result<u16, SubscriptionConfirmError>)
    ensures
        match reply {
            StoreReply::Answered(_) => answer == Ok::<u16, SubscriptionConfirmError>(OK),
            StoreReply::Failed(cause) => answer is Err && answer->Err_0 is UnexpectedError
                && texts(answer->Err_0->UnexpectedError_0@) == failure_chain(
                "Failed to edit the subscriber record"@,
                cause@,
            ),
        },
{
    match reply {
        StoreReply::Answered(_) => Ok(OK),
        StoreReply::Failed(cause) => Err(
            SubscriptionConfirmError::UnexpectedError(
                chain_of("Failed to edit the subscriber record", cause),
            ),
        ),
    }
}

/// Confirms the subscriber that the token in `parameters` belongs to. An
/// unknown token changes nothing and is answered with `UnauthorizedError`;
/// a known one marks its subscriber as confirmed and is answered with
/// status 200, however often it is used.
pub fn confirm(subscribers: &mut Subscribers, parameters: &Parameters) -> (answer: Result<
    u16,
    SubscriptionConfirmError,
>)
    requires
        old(subscribers).wf(),
    ensures
        final(subscribers).wf(),
        final(subscribers)@.tokens == old(subscribers)@.tokens,
        !old(subscribers)@.tokens.dom().contains(parameters.subscription_token@) ==> final(subscribers)@ == old(subscribers)@ && answer is Err && answer->Err_0 is UnauthorizedError,
        old(subscribers)@.tokens.dom().contains(parameters.subscription_token@) ==> answer == Ok::<
            u16,
            SubscriptionConfirmError,
        >(OK) && final(subscribers)@.rows == confirmed(
            old(subscribers)@.rows,
            old(subscribers)@.tokens[parameters.subscription_token@],
        ),
{
    let found = subscribers.get_subscriber_id_from_token(parameters.subscription_token.as_str());
    let subscriber_id = match after_token_lookup(StoreReply::Answered(found)) {
        Ok(subscriber_id) => subscriber_id,
        Err(error) => {
            return Err(error);
        },
    };
    let _ = subscribers.confirm_subscriber(subscriber_id);
    after_confirmation(StoreReply::Answered(()))
}

} // verus!
