//! What the service knows about sending e-mail: who sends, how a message is
//! addressed, and how a failed send is classified.

use crate::delivery::SendOutcome;
use crate::domain::{SubscriberEmail, SubscriberName};
use lettre::message::header::ContentType;
use lettre::message::{MultiPart, SinglePart};
use vstd::prelude::*;

verus! {

/// A message as `lettre` builds it.
#[verifier::external_type_specification]
#[verifier::external_body]
pub struct ExMessage(lettre::Message);

/// The error of `lettre`'s message builder.
#[verifier::external_type_specification]
#[verifier::external_body]
pub struct ExContentError(lettre::error::Error);

/// The sender of every message: a name and an address.
#[derive(Debug)]
pub struct SenderInfo(pub SubscriberName, pub SubscriberEmail);

/// Why a message did not go out.
#[derive(Debug)]
pub enum EmailClientError {
    /// The transport failed; the text says how.
    TransportError(String),
}

impl EmailClientError {
    /// The text that describes this error.
    pub fn message(&self) -> (text: &'static str)
        ensures
            text@ == "transport error while trying to send the email"@,
    {
        "transport error while trying to send the email"
    }
}

/// How a transport failed.
#[derive(Debug)]
pub enum TransportError {
    /// A failure that may pass, such as a refused connection.
    Transient(String),
    /// The send did not end in time.
    TimedOut,
    /// The transport will never take this message.
    Rejected(String),
}

/// How a send attempt counts for the queue: a timeout and a transient
/// failure may be tried again, a rejection may not.
pub open spec fn outcome_of(sent: Result<(), TransportError>) -> SendOutcome {
    match sent {
        Ok(_) => SendOutcome::Delivered,
        Err(TransportError::Transient(_)) => SendOutcome::Recoverable,
        Err(TransportError::TimedOut) => SendOutcome::Recoverable,
        Err(TransportError::Rejected(_)) => SendOutcome::Permanent,
    }
}

/// Classifies the end of a send attempt.
pub fn classify(sent: &Result<(), TransportError>) -> (outcome: SendOutcome)
    ensures
        outcome == outcome_of(*sent),
{
    match sent {
        Ok(_) => SendOutcome::Delivered,
        Err(TransportError::Transient(_)) => SendOutcome::Recoverable,
        Err(TransportError::TimedOut) => SendOutcome::Recoverable,
        Err(TransportError::Rejected(_)) => SendOutcome::Permanent,
    }
}

/// Whether `lettre` reads a text as a mailbox: an address, alone or in
/// angle brackets behind a name.
pub uninterp spec fn mailbox_accepted(text: Seq<char>) -> bool;

/// Asks `lettre::message::Mailbox::from_str` whether it accepts `text`. The
/// answer depends on the text alone; what the parser accepts is not restated
/// here.
#[verifier::external_body]
fn parses_as_mailbox(text: &str) -> (accepted: bool)
    ensures
        accepted == mailbox_accepted(text@),
{
    text.parse::<lettre::message::Mailbox>().is_ok()
}

/// The `From` header of a message: the name, then the address in angle
/// brackets.
pub open spec fn sender_mailbox(name: Seq<char>, email: Seq<char>) -> Seq<char> {
    name + " <"@ + email + ">"@
}

/// The `To` header of a message: the address in angle brackets, without a
/// name.
pub open spec fn recipient_mailbox(email: Seq<char>) -> Seq<char> {
    " <"@ + email + ">"@
}

/// A message that is ready to be built: both headers make a mailbox.
#[derive(Debug)]
pub struct OutgoingEmail {
    from: String,
    to: String,
    subject: String,
    plain: String,
    html: String,
}

/// What a message holds, as plain texts.
pub struct EmailModel {
    pub from: Seq<char>,
    pub to: Seq<char>,
    pub subject: Seq<char>,
    pub plain: Seq<char>,
    pub html: Seq<char>,
}

impl View for OutgoingEmail {
    type V = EmailModel;

    closed spec fn view(&self) -> EmailModel {
        EmailModel {
            from: self.from@,
            to: self.to@,
            subject: self.subject@,
            plain: self.plain@,
            html: self.html@,
        }
    }
}

/// Why a message could not be addressed.
#[derive(Clone, Copy, Debug, PartialEq, Eq, Structural)]
pub enum ComposeError {
    /// The sender's name and address do not make a mailbox.
    MalformedSender,
    /// The recipient's address does not make a mailbox.
    MalformedRecipient,
}

/// Builds a message with `lettre::Message::builder`: the two headers, the
/// subject, and a body of two alternative parts, the plain text first and
/// the HTML second. The builder adds the date of the moment, so nothing is
/// said of the message that comes back, nor of whether one does.
#[verifier::external_body]
fn build_message(from: &str, to: &str, subject: &str, plain: &str, html: &str) -> (built: Result<
    lettre::Message,
    lettre::error::Error,
>)
    requires
        mailbox_accepted(from@),
        mailbox_accepted(to@),
{
    lettre::Message::builder()
        .from(from.parse().unwrap())
        .to(to.parse().unwrap())
        .subject(subject)
        .multipart(
            MultiPart::alternative()
                .singlepart(SinglePart::builder().header(ContentType::TEXT_PLAIN).body(plain.to_owned()))
                .singlepart(SinglePart::builder().header(ContentType::TEXT_HTML).body(html.to_owned())),
        )
}

/// Turns the end of a build into what the worker records: the message, or
/// a rejection, since a message that cannot be built will never go out.
pub fn sealed(built: Result<lettre::Message, lettre::error::Error>) -> (outcome: Result<
    lettre::Message,
    TransportError,
>)
    ensures
        match built {
            Ok(message) => outcome == Ok::<lettre::Message, TransportError>(message),
            Err(_) => outcome is Err && outcome->Err_0 is Rejected && outcome->Err_0->Rejected_0@
                == "the message could not be built"@,
        },
{
    match built {
        Ok(message) => Ok(message),
        Err(_) => Err(TransportError::Rejected(String::from_str("the message could not be built"))),
    }
}

impl OutgoingEmail {
    #[verifier::type_invariant]
    closed spec fn well_formed(&self) -> bool {
        mailbox_accepted(self.from@) && mailbox_accepted(self.to@)
    }

    /// The `From` header.
    pub fn from(&self) -> (text: &str)
        ensures
            text@ == self@.from,
            mailbox_accepted(text@),
    {
        proof {
            use_type_invariant(self);
        }
        self.from.as_str()
    }

    /// The `To` header.
    pub fn to(&self) -> (text: &str)
        ensures
            text@ == self@.to,
            mailbox_accepted(text@),
    {
        proof {
            use_type_invariant(self);
        }
        self.to.as_str()
    }

    /// The subject.
    pub fn subject(&self) -> (text: &str)
        ensures
            text@ == self@.subject,
    {
        self.subject.as_str()
    }

    /// The body as plain text.
    pub fn plain(&self) -> (text: &str)
        ensures
            text@ == self@.plain,
    {
        self.plain.as_str()
    }

    /// The body as HTML.
    pub fn html(&self) -> (text: &str)
        ensures
            text@ == self@.html,
    {
        self.html.as_str()
    }

    /// Builds the message for the transport. A message that cannot be
    /// built counts as rejected.
    pub fn build(&self) -> (outcome: Result<lettre::Message, TransportError>)
        ensures
            outcome is Err ==> outcome->Err_0 is Rejected && outcome->Err_0->Rejected_0@
                == "the message could not be built"@,
    {
        proof {
            use_type_invariant(self);
        }
        sealed(
            build_message(
                self.from.as_str(),
                self.to.as_str(),
                self.subject.as_str(),
                self.plain.as_str(),
                self.html.as_str(),
            ),
        )
    }
}

impl SenderInfo {
    /// The `From` header for this sender.
    pub fn mailbox(&self) -> (text: String)
        ensures
            text@ == sender_mailbox(self.0@, self.1@),
    {
        let mut text = String::from_str(self.0.as_ref());
        text.append(" <");
        text.append(self.1.as_ref());
        text.append(">");
        text
    }
}

/// The `To` header for `recipient`.
pub fn mailbox_of(recipient: &str) -> (text: String)
    ensures
        text@ == recipient_mailbox(recipient@),
{
    let mut text = String::from_str(" <");
    text.append(recipient);
    text.append(">");
    text
}

/// Puts a message together once both headers were checked: `from_ok` and
/// `to_ok` say whether the `From` and the `To` header make a mailbox. The
/// sender is looked at first.
pub fn assemble(
    from: String,
    from_ok: bool,
    to: String,
    to_ok: bool,
    subject: String,
    plain: String,
    html: String,
) -> (outcome: Result<OutgoingEmail, ComposeError>)
    requires
        from_ok == mailbox_accepted(from@),
        to_ok == mailbox_accepted(to@),
    ensures
        outcome is Ok <==> from_ok && to_ok,
        !from_ok ==> outcome == Err::<OutgoingEmail, ComposeError>(ComposeError::MalformedSender),
        from_ok && !to_ok ==> outcome == Err::<OutgoingEmail, ComposeError>(
            ComposeError::MalformedRecipient,
        ),
        outcome is Ok ==> outcome->Ok_0@ == (EmailModel {
            from: from@,
            to: to@,
            subject: subject@,
            plain: plain@,
            html: html@,
        }),
{
    if !from_ok {
        Err(ComposeError::MalformedSender)
    } else if !to_ok {
        Err(ComposeError::MalformedRecipient)
    } else {
        Ok(OutgoingEmail { from, to, subject, plain, html })
    }
}

/// Addresses a message from `sender` to `recipient`. The message is made
/// when both headers make a mailbox, and refused otherwise, the sender
/// first.
pub fn compose(
    sender: &SenderInfo,
    recipient: &str,
    subject: String,
    plain: String,
    html: String,
) -> (outcome: Result<OutgoingEmail, ComposeError>)
    ensures
        outcome is Ok <==> mailbox_accepted(sender_mailbox(sender.0@, sender.1@))
            && mailbox_accepted(recipient_mailbox(recipient@)),
        !mailbox_accepted(sender_mailbox(sender.0@, sender.1@)) ==> outcome == Err::<
            OutgoingEmail,
            ComposeError,
        >(ComposeError::MalformedSender),
        mailbox_accepted(sender_mailbox(sender.0@, sender.1@)) && !mailbox_accepted(
            recipient_mailbox(recipient@),
        ) ==> outcome == Err::<OutgoingEmail, ComposeError>(ComposeError::MalformedRecipient),
        outcome is Ok ==> outcome->Ok_0@ == (EmailModel {
            from: sender_mailbox(sender.0@, sender.1@),
            to: recipient_mailbox(recipient@),
            subject: subject@,
            plain: plain@,
            html: html@,
        }),
{
    let from = sender.mailbox();
    let to = mailbox_of(recipient);
    let from_ok = parses_as_mailbox(from.as_str());
    let to_ok = parses_as_mailbox(to.as_str());
    assemble(from, from_ok, to, to_ok, subject, plain, html)
}

} // verus!
