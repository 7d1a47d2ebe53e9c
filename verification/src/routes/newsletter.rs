//! Publishing a newsletter issue on behalf of a logged-in user.

use crate::authentication::UserId;
use crate::clock::current_time;
use crate::idempotency::{IdempotencyKey, KeyError, MAX_KEY_LENGTH};
use crate::identifiers::{fresh_id, is_version_four};
use crate::issues::{IssueModel, NewsletterIssue};
use crate::publish::{publish_spec, PublishError, Store, StoreModel};
use crate::response::SavedResponse;
use crate::routes::subscriptions::{BAD_REQUEST, INTERNAL_SERVER_ERROR};
use crate::text::texts;
use vstd::prelude::*;

verus! {

/// What an administrator sends to publish an issue.
#[derive(Debug)]
pub struct FormData {
    pub title: String,
    pub html_content: String,
    pub text_content: String,
    pub idempotency_key: String,
}

/// Why a publish request was not served.
#[derive(Clone, Copy, Debug, PartialEq, Eq, Structural)]
pub enum PublishFailure {
    /// The idempotency key was refused. Nothing was looked at or written.
    Rejected(KeyError),
    /// The request could not be carried out.
    Failed(PublishError),
}

impl PublishFailure {
    /// The HTTP status that answers this failure: 400 for a refused key,
    /// 500 for everything else.
    pub fn status_code(&self) -> (code: u16)
        ensures
            code == match *self {
                PublishFailure::Rejected(_) => BAD_REQUEST,
                PublishFailure::Failed(_) => INTERNAL_SERVER_ERROR,
            },
    {
        match self {
            PublishFailure::Rejected(_) => BAD_REQUEST,
            PublishFailure::Failed(_) => INTERNAL_SERVER_ERROR,
        }
    }
}

/// The note shown to the administrator after a publish request was taken.
pub fn success_message() -> (text: &'static str)
    ensures
        text@ == "The newsletter issue has been accepted - emails will go out shortly."@,
{
    "The newsletter issue has been accepted - emails will go out shortly."
}

/// The issue that a form asks for, stored at the time `now`.
pub open spec fn issue_of(form: FormData, now: i64) -> IssueModel {
    IssueModel {
        title: form.title@,
        text_content: form.text_content@,
        html_content: form.html_content@,
        published_at: now,
    }
}

/// Whether `answer` and the store `after` are what a publish request with
/// `form` owes when the issue gets the identifier `issue_id`. A refused key
/// changes nothing and is answered with the refusal. Otherwise the store and
/// the answer are those of `publish_spec`.
pub open spec fn publication_holds(
    before: StoreModel,
    after: StoreModel,
    answer: Result<SavedResponse, PublishFailure>,
    form: FormData,
    user_id: UserId,
    recipients: Seq<Seq<char>>,
    issue_id: u128,
    now: i64,
) -> bool {
    if form.idempotency_key@.len() == 0 {
        after == before && answer == Err::<SavedResponse, PublishFailure>(
            PublishFailure::Rejected(KeyError::Empty),
        )
    } else if form.idempotency_key@.len() > MAX_KEY_LENGTH {
        after == before && answer == Err::<SavedResponse, PublishFailure>(
            PublishFailure::Rejected(KeyError::TooLong),
        )
    } else {
        let owed = publish_spec(
            before,
            user_id.0,
            form.idempotency_key@,
            issue_id,
            issue_of(form, now),
            recipients,
        );
        &&& after == owed.0
        &&& match owed.1 {
            Ok(response) => answer is Ok && answer->Ok_0@ == response,
            Err(error) => answer == Err::<SavedResponse, PublishFailure>(
                PublishFailure::Failed(error),
            ),
        }
    }
}

/// Serves a publish request with the identifier `issue_id` for the issue.
/// A refused key ends the request before the store is touched. Otherwise the
/// request is handled as `Store::publish_with` says.
pub fn publish_newsletter_as(
    store: &mut Store,
    form: FormData,
    user_id: UserId,
    confirmed: &Vec<String>,
    issue_id: u128,
    now: i64,
) -> (answer: Result<SavedResponse, PublishFailure>)
    requires
        old(store).wf(),
    ensures
        final(store).wf(),
        publication_holds(
            old(store)@,
            final(store)@,
            answer,
            form,
            user_id,
            texts(confirmed@),
            issue_id,
            now,
        ),
{
    let key = match IdempotencyKey::try_from(form.idempotency_key) {
        Ok(key) => key,
        Err(refusal) => {
            return Err(PublishFailure::Rejected(refusal));
        },
    };
    let issue = NewsletterIssue {
        issue_id,
        title: form.title,
        text_content: form.text_content,
        html_content: form.html_content,
        published_at: now,
    };
    match store.publish_with(user_id.0, &key, issue, confirmed) {
        Ok(response) => Ok(response),
        Err(error) => Err(PublishFailure::Failed(error)),
    }
}

/// Serves a publish request: draws a fresh identifier for the issue, reads
/// the clock and goes on as `publish_newsletter_as` does. Whatever
/// identifier was drawn, it is a random UUID, and the store and the answer
/// are those that `publish_newsletter_as` gives for it and for the time
/// that the clock showed.
pub fn publish_newsletter(
    store: &mut Store,
    form: FormData,
    user_id: UserId,
    confirmed: &Vec<String>,
) -> (answer: Result<SavedResponse, PublishFailure>)
    requires
        old(store).wf(),
    ensures
        final(store).wf(),
        exists|issue_id: u128, now: i64|
            is_version_four(issue_id) && #[trigger] publication_holds(
                old(store)@,
                final(store)@,
                answer,
                form,
                user_id,
                texts(confirmed@),
                issue_id,
                now,
            ),
{
    let issue_id: u128 = fresh_id();
    let now: i64 = current_time();
    publish_newsletter_as(store, form, user_id, confirmed, issue_id, now)
}

} // verus!
