//! Subscribing: the form, its validation, the confirmation token and the
//! confirmation e-mail.

use crate::domain::{
    address_accepted, email_refusal, is_valid_name, name_refusal, NewSubscriber, SubscriberEmail,
    SubscriberName,
};
use crate::clock::current_time;
use crate::identifiers::{fresh_id, is_version_four};
use crate::startup::ApplicationBaseUrl;
use crate::subscribers::{email_taken, pending, RowError, Subscribers, SubscribersModel};
use crate::text::{chain_of, failure_chain, framed, push_char, texts};
use vstd::prelude::*;

verus! {

/// What a person sends to subscribe.
#[derive(Debug)]
pub struct FormData {
    pub email: String,
    pub name: String,
}

impl NewSubscriber {
    /// Validates a form. The name is looked at first, so a form with two
    /// faults is refused for its name.
    pub fn try_from(value: FormData) -> (outcome: Result<NewSubscriber, String>)
        ensures
            outcome is Ok <==> is_valid_name(value.name@) && address_accepted(value.email@),
            outcome is Ok ==> outcome->Ok_0.name@ == value.name@ && outcome->Ok_0.email@
                == value.email@,
            !is_valid_name(value.name@) ==> outcome is Err && outcome->Err_0@ == name_refusal(
                value.name@,
            ),
            is_valid_name(value.name@) && !address_accepted(value.email@) ==> outcome is Err
                && outcome->Err_0@ == email_refusal(value.email@),
    {
        let name = match SubscriberName::parse(value.name) {
            Ok(name) => name,
            Err(refusal) => {
                return Err(refusal);
            },
        };
        let email = match SubscriberEmail::parse(value.email) {
            Ok(email) => email,
            Err(refusal) => {
                return Err(refusal);
            },
        };
        Ok(NewSubscriber { email, name })
    }
}

/// Why a subscription failed.
#[derive(Debug)]
pub enum SubscribeError {
    /// The form was refused; the text says why.
    ValidationError(String),
    /// Something behind the service failed. The texts are the failure and
    /// its causes, outermost first.
    UnexpectedError(Vec<String>),
}

/// The HTTP status for a refused request.
pub const BAD_REQUEST: u16 = 400;

/// The HTTP status for a failure of the service.
pub const INTERNAL_SERVER_ERROR: u16 = 500;

/// The HTTP status for a request that went through.
pub const OK: u16 = 200;

impl SubscribeError {
    /// The HTTP status that answers this error: 400 for a refused form, 500
    /// for everything else.
    pub fn status_code(&self) -> (code: u16)
        ensures
            code == match *self {
                SubscribeError::ValidationError(_) => BAD_REQUEST,
                SubscribeError::UnexpectedError(_) => INTERNAL_SERVER_ERROR,
            },
    {
        match self {
            SubscribeError::ValidationError(_) => BAD_REQUEST,
            SubscribeError::UnexpectedError(_) => INTERNAL_SERVER_ERROR,
        }
    }
}

/// The report of a failure and its causes: the failure, an empty line, and
/// for each cause the line `Caused by:` and the cause, set in by a tab.
pub open spec fn chain_text(message: Seq<char>, causes: Seq<Seq<char>>) -> Seq<char> {
    message + "\n\n"@ + framed(causes, "Caused by:\n\t"@, "\n"@)
}

/// Writes the report of a failure and its causes, outermost cause first.
pub fn error_chain_fmt(message: &str, causes: &Vec<String>) -> (report: String)
    ensures
        report@ == chain_text(message@, texts(causes@)),
{
    let mut report = String::from_str(message).concat("\n\n");
    let mut i: usize = 0;
    proof {
        assert(texts(causes@).take(0) =~= Seq::empty());
    }
    while i < causes.len()
        invariant
            i <= causes@.len(),
            report@ == chain_text(message@, texts(causes@).take(i as int)),
        decreases causes@.len() - i,
    {
        proof {
            let longer = texts(causes@).take(i + 1);
            assert(longer.drop_last() =~= texts(causes@).take(i as int));
            assert(longer.last() == causes@[i as int]@);
        }
        report.append("Caused by:\n\t");
        report.append(causes[i].as_str());
        report.append("\n");
        i += 1;
        proof {
            let seen = framed(texts(causes@).take(i - 1), "Caused by:\n\t"@, "\n"@);
            assert(report@ =~= message@ + "\n\n"@ + (seen + "Caused by:\n\t"@ + causes@[i - 1]@
                + "\n"@));
        }
    }
    proof {
        assert(texts(causes@).take(causes@.len() as int) =~= texts(causes@));
    }
    report
}

/// How many characters a confirmation token has.
pub const TOKEN_LENGTH: usize = 25;

/// The letters and digits of ASCII.
pub open spec fn is_alphanumeric(byte: u8) -> bool {
    (0x30 <= byte <= 0x39) || (0x41 <= byte <= 0x5a) || (0x61 <= byte <= 0x7a)
}

/// What every confirmation token looks like: `TOKEN_LENGTH` letters and
/// digits of ASCII.
pub open spec fn is_token(text: Seq<char>) -> bool {
    &&& text.len() == TOKEN_LENGTH
    &&& forall|i: int|
        0 <= i < text.len() ==> (#[trigger] text[i]) as u32 <= 0x7f && is_alphanumeric(
            text[i] as u8,
        )
}

/// Draws one byte with `rand`'s `Alphanumeric` distribution from the
/// thread's generator. Which byte comes is left open; it is always an ASCII
/// letter or digit.
#[verifier::external_body]
fn sample_alphanumeric() -> (byte: u8)
    ensures
        is_alphanumeric(byte),
{
    rand::Rng::sample(&mut rand::thread_rng(), rand::distributions::Alphanumeric)
}

/// Draws a fresh confirmation token.
pub fn generate_subscription_token() -> (token: String)
    ensures
        is_token(token@),
{
    let mut token = String::new();
    let mut i: usize = 0;
    while i < TOKEN_LENGTH
        invariant
            i <= TOKEN_LENGTH,
            token@.len() == i,
            forall|k: int|
                0 <= k < i ==> (#[trigger] token@[k]) as u32 <= 0x7f && is_alphanumeric(
                    token@[k] as u8,
                ),
        decreases TOKEN_LENGTH - i,
    {
        let byte: u8 = sample_alphanumeric();
        push_char(&mut token, byte as char);
        i += 1;
    }
    token
}

/// What goes into an e-mail.
#[derive(Debug)]
pub struct EmailContent {
    pub subject: String,
    pub text: String,
    pub html: String,
}

/// The link that confirms the subscription with `token`.
pub open spec fn confirmation_link(base_url: Seq<char>, token: Seq<char>) -> Seq<char> {
    base_url + "/subscriptions/confirm?subscription_token="@ + token
}

/// The plain text of the confirmation e-mail.
pub open spec fn confirmation_text(link: Seq<char>) -> Seq<char> {
    "Welcome to our newsletter click here to confirm your subscription "@ + link
}

/// The HTML of the confirmation e-mail.
pub open spec fn confirmation_html(link: Seq<char>) -> Seq<char> {
    "\n<h2>Welcome to our newsletter please click here <a href=\""@ + link
        + "\">here</a></h2>\n"@
}

/// Writes the e-mail that asks a new subscriber to confirm: both bodies
/// carry the same link, made of the base URL and the token.
pub fn confirmation_email(base_url: &str, token: &str) -> (content: EmailContent)
    ensures
        content.subject@ == "Welcome"@,
        content.text@ == confirmation_text(confirmation_link(base_url@, token@)),
        content.html@ == confirmation_html(confirmation_link(base_url@, token@)),
{
    let mut link = String::from_str(base_url);
    link.append("/subscriptions/confirm?subscription_token=");
    link.append(token);
    let mut text = String::from_str(
        "Welcome to our newsletter click here to confirm your subscription ",
    );
    text.append(link.as_str());
    let mut html = String::from_str("\n<h2>Welcome to our newsletter please click here <a href=\"");
    html.append(link.as_str());
    html.append("\">here</a></h2>\n");
    EmailContent { subject: String::from_str("Welcome"), text, html }
}

/// What a subscription that went through hands back: the status to answer
/// with, and the confirmation e-mail with the address to send it to.
#[derive(Debug)]
pub struct Welcome {
    pub status: u16,
    pub recipient: SubscriberEmail,
    pub email: EmailContent,
}

fn unexpected(context: &str, cause: String) -> (error: SubscribeError)
    ensures
        error is UnexpectedError,
        texts(error->UnexpectedError_0@) == failure_chain(context@, cause@),
{
    SubscribeError::UnexpectedError(chain_of(context, cause))
}

/// The subscribers after `id` was written with the form's name and address
/// and `token` was written for it.
pub open spec fn subscribed(
    before: SubscribersModel,
    id: u128,
    token: Seq<char>,
    form: FormData,
    now: i64,
) -> SubscribersModel {
    SubscribersModel {
        rows: before.rows.insert(id, pending(form.email@, form.name@, now)),
        tokens: before.tokens.insert(token, id),
    }
}

/// The row error that stops the subscription of `form` under `id` with
/// `token`, if one does: a taken identifier, then a taken address, then a
/// token in use.
pub open spec fn row_obstacle(
    before: SubscribersModel,
    id: u128,
    token: Seq<char>,
    form: FormData,
) -> Option<RowError> {
    if before.rows.dom().contains(id) {
        Some(RowError::DuplicateId)
    } else if email_taken(before.rows, form.email@) {
        Some(RowError::DuplicateEmail)
    } else if before.tokens.dom().contains(token) {
        Some(RowError::DuplicateToken)
    } else {
        None
    }
}

/// The name under which a row error is reported.
pub open spec fn row_context(error: RowError) -> Seq<char> {
    match error {
        RowError::DuplicateToken => "Failed to store the confirmation token for a new subscriber"@,
        _ => "Failed to insert a subscriber in the database."@,
    }
}

/// Whether `outcome` and the subscribers `after` are what a subscription of
/// `form` under `id` with `token` owes. A form with a refused name, or else
/// a refused address, changes nothing and is answered with the refusal. A
/// row that cannot be written changes nothing and is answered with the
/// failure and its cause. Otherwise the subscriber and the token are written
/// and the confirmation e-mail is handed back.
pub open spec fn subscription_holds(
    before: SubscribersModel,
    after: SubscribersModel,
    outcome: Result<Welcome, SubscribeError>,
    form: FormData,
    base_url: Seq<char>,
    id: u128,
    token: Seq<char>,
    now: i64,
) -> bool {
    if !is_valid_name(form.name@) {
        &&& after == before
        &&& outcome is Err
        &&& outcome->Err_0 is ValidationError
        &&& outcome->Err_0->ValidationError_0@ == name_refusal(form.name@)
    } else if !address_accepted(form.email@) {
        &&& after == before
        &&& outcome is Err
        &&& outcome->Err_0 is ValidationError
        &&& outcome->Err_0->ValidationError_0@ == email_refusal(form.email@)
    } else {
        match row_obstacle(before, id, token, form) {
            Some(error) => {
                &&& after == before
                &&& outcome is Err
                &&& outcome->Err_0 is UnexpectedError
                &&& texts(outcome->Err_0->UnexpectedError_0@) == failure_chain(
                    row_context(error),
                    error.text(),
                )
            },
            None => {
                &&& after == subscribed(before, id, token, form, now)
                &&& outcome is Ok
                &&& outcome->Ok_0.status == OK
                &&& outcome->Ok_0.recipient@ == form.email@
                &&& outcome->Ok_0.email.subject@ == "Welcome"@
                &&& outcome->Ok_0.email.text@ == confirmation_text(
                    confirmation_link(base_url, token),
                )
                &&& outcome->Ok_0.email.html@ == confirmation_html(
                    confirmation_link(base_url, token),
                )
            },
        }
    }
}

/// Takes a subscription under the identifier `id` with the confirmation
/// token `token`. A refused form is answered without a look at the store.
/// The subscriber and the token are written together or not at all. When
/// they are written, the confirmation e-mail for the caller to send comes
/// back.
pub fn subscribe_as(
    subscribers: &mut Subscribers,
    form: FormData,
    base_url: &ApplicationBaseUrl,
    id: u128,
    token: &str,
    now: i64,
) -> (outcome: Result<Welcome, SubscribeError>)
    requires
        old(subscribers).wf(),
    ensures
        final(subscribers).wf(),
        subscription_holds(
            old(subscribers)@,
            final(subscribers)@,
            outcome,
            form,
            base_url.0@,
            id,
            token@,
            now,
        ),
{
    let new_subscriber = match NewSubscriber::try_from(form) {
        Ok(new_subscriber) => new_subscriber,
        Err(refusal) => {
            return Err(SubscribeError::ValidationError(refusal));
        },
    };
    if subscribers.get(id).is_some() {
        return Err(
            unexpected(
                "Failed to insert a subscriber in the database.",
                RowError::DuplicateId.message(),
            ),
        );
    }
    if subscribers.find_by_email(new_subscriber.email.as_ref()).is_some() {
        return Err(
            unexpected(
                "Failed to insert a subscriber in the database.",
                RowError::DuplicateEmail.message(),
            ),
        );
    }
    if subscribers.get_subscriber_id_from_token(token).is_some() {
        return Err(
            unexpected(
                "Failed to store the confirmation token for a new subscriber",
                RowError::DuplicateToken.message(),
            ),
        );
    }
    let _ = subscribers.insert_subscriber_as(id, &new_subscriber, now);
    let _ = subscribers.store_token(id, token);
    let email = confirmation_email(base_url.0.as_str(), token);
    Ok(Welcome { status: OK, recipient: new_subscriber.email, email })
}

/// Takes a subscription: draws a fresh identifier and a fresh token, reads
/// the clock and goes on as `subscribe_as` does. Whatever was drawn, the
/// identifier is a random UUID, the token has the shape of a token, and the
/// subscribers and the answer are those that `subscribe_as` gives for them
/// and for the time that the clock showed.
pub fn subscribe(
    subscribers: &mut Subscribers,
    form: FormData,
    base_url: &ApplicationBaseUrl,
) -> (outcome: Result<Welcome, SubscribeError>)
    requires
        old(subscribers).wf(),
    ensures
        final(subscribers).wf(),
        exists|id: u128, token: Seq<char>, now: i64|
            is_version_four(id) && is_token(token) && #[trigger] subscription_holds(
                old(subscribers)@,
                final(subscribers)@,
                outcome,
                form,
                base_url.0@,
                id,
                token,
                now,
            ),
{
    let id: u128 = fresh_id();
    let token = generate_subscription_token();
    let now: i64 = current_time();
    subscribe_as(subscribers, form, base_url, id, token.as_str(), now)
}

/// Decides the answer after the confirmation e-mail was handed to the
/// transport: status 200, or the failure to report. The subscriber stays
/// stored either way.
pub fn after_confirmation_email(sent: Result<(), String>) -> (answer: Result<u16, SubscribeError>)
    ensures
        match sent {
            Ok(_) => answer is Ok && answer->Ok_0 == OK,
            Err(cause) => answer is Err && answer->Err_0 is UnexpectedError && texts(
                answer->Err_0->UnexpectedError_0@,
            ) == failure_chain("Failed to send a confirmation email."@, cause@),
        },
{
    match sent {
        Ok(_) => Ok(OK),
        Err(cause) => Err(unexpected("Failed to send a confirmation email.", cause)),
    }
}

} // verus!
