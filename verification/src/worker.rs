//! One cycle of the delivery worker: claim a task, prepare its message, and
//! record how the send ended.

use crate::delivery::{
    claimable, claimed, fate_of, settled, RetryPolicy, TaskFate, TaskKey, TaskState,
};
use crate::domain::{address_accepted, SubscriberEmail};
use crate::email_client::{
    classify, compose, mailbox_accepted, outcome_of, recipient_mailbox, sender_mailbox,
    ComposeError, EmailModel, OutgoingEmail, SenderInfo, TransportError,
};
use crate::issues::NewsletterIssue;
use crate::outbox::Claim;
use crate::publish::Store;
use vstd::prelude::*;

verus! {

/// What a worker has to do after it asked for a task.
#[derive(Debug)]
pub enum WorkerStep {
    /// No task can be claimed. Nothing changed.
    Idle,
    /// The task is claimed: send the message, then record how that ended.
    Send(Claim, OutgoingEmail),
    /// The task was removed without a send: its recipient cannot be
    /// written to.
    Skipped(Claim),
    /// The sender does not make a mailbox, so nothing can be sent at all.
    /// The task was given back. Nothing changed.
    Misconfigured,
}

/// How a cycle of the worker ended.
#[derive(Clone, Copy, Debug, PartialEq, Eq, Structural)]
pub enum CycleOutcome {
    /// A task was handled.
    TaskCompleted,
    /// There was no task.
    EmptyQueue,
    /// The store failed.
    Failed,
}

/// The pause after a failed cycle, in milliseconds.
pub const FAILURE_PAUSE_MS: u64 = 1000;

/// How long the worker rests before its next cycle, in milliseconds: not
/// at all after a task, the policy's pause after an empty queue, a second
/// after a failure.
pub fn pause_after(outcome: CycleOutcome, policy: &RetryPolicy) -> (pause: Option<u64>)
    ensures
        pause == match outcome {
            CycleOutcome::TaskCompleted => None,
            CycleOutcome::EmptyQueue => Some(policy.idle_pause_ms()),
            CycleOutcome::Failed => Some(FAILURE_PAUSE_MS),
        },
{
    match outcome {
        CycleOutcome::TaskCompleted => None,
        CycleOutcome::EmptyQueue => Some(policy.idle_pause_ms()),
        CycleOutcome::Failed => Some(FAILURE_PAUSE_MS),
    }
}

/// Whether a message can be addressed to `recipient`: it is an address,
/// and in angle brackets it makes a mailbox.
pub open spec fn deliverable(recipient: Seq<char>) -> bool {
    address_accepted(recipient) && mailbox_accepted(recipient_mailbox(recipient))
}

/// What became of the attempt to prepare a message.
#[derive(Debug)]
pub enum Preparation {
    /// The message is addressed and can be built.
    Ready(OutgoingEmail),
    /// No message can ever go to this recipient for this issue.
    Undeliverable,
    /// The sender does not make a mailbox, so nothing can be sent at all.
    Misconfigured,
}

/// Prepares the message of `issue` for `recipient`. Without an issue, or
/// with a recipient that is no address, there is nothing to deliver,
/// whatever the sender is. Otherwise a sender that makes no mailbox is a
/// fault of the configuration, a recipient that makes none is undeliverable,
/// and in every other case the message is ready.
pub fn prepare(sender: &SenderInfo, recipient: &String, issue: Option<NewsletterIssue>) -> (prepared:
    Preparation)
    ensures
        match prepared {
            Preparation::Ready(email) => {
                &&& issue is Some
                &&& deliverable(recipient@)
                &&& mailbox_accepted(sender_mailbox(sender.0@, sender.1@))
                &&& email@ == (EmailModel {
                    from: sender_mailbox(sender.0@, sender.1@),
                    to: recipient_mailbox(recipient@),
                    subject: issue->0@.title,
                    plain: issue->0@.text_content,
                    html: issue->0@.html_content,
                })
            },
            Preparation::Undeliverable => {
                ||| issue is None
                ||| !address_accepted(recipient@)
                ||| mailbox_accepted(sender_mailbox(sender.0@, sender.1@)) && !mailbox_accepted(
                    recipient_mailbox(recipient@),
                )
            },
            Preparation::Misconfigured => {
                &&& issue is Some
                &&& address_accepted(recipient@)
                &&& !mailbox_accepted(sender_mailbox(sender.0@, sender.1@))
            },
        },
{
    let issue = match issue {
        None => {
            return Preparation::Undeliverable;
        },
        Some(issue) => issue,
    };
    let address = match SubscriberEmail::parse(recipient.clone()) {
        Err(_) => {
            return Preparation::Undeliverable;
        },
        Ok(address) => address,
    };
    match compose(sender, address.as_ref(), issue.title, issue.text_content, issue.html_content) {
        Ok(email) => Preparation::Ready(email),
        Err(ComposeError::MalformedRecipient) => Preparation::Undeliverable,
        Err(ComposeError::MalformedSender) => Preparation::Misconfigured,
    }
}

/// Claims a task and prepares its message. The ledger and the archive are
/// not touched, and of the queue only the claimed task. A task whose
/// recipient is no address is removed at once, whatever the sender is; so
/// is one whose recipient makes no mailbox, if the sender makes one. Which
/// of several waiting tasks is claimed is not fixed.
pub fn next_task(store: &mut Store, sender: &SenderInfo) -> (step: WorkerStep)
    requires
        old(store).wf(),
    ensures
        final(store).wf(),
        final(store)@.ledger == old(store)@.ledger,
        final(store)@.issues == old(store)@.issues,
        match step {
            WorkerStep::Idle => {
                &&& final(store)@ == old(store)@
                &&& forall|key: TaskKey| !claimable(old(store)@.queue, key)
            },
            WorkerStep::Misconfigured => {
                &&& final(store)@ == old(store)@
                &&& !mailbox_accepted(sender_mailbox(sender.0@, sender.1@))
                &&& exists|key: TaskKey| claimable(old(store)@.queue, key) && address_accepted(key.1)
            },
            WorkerStep::Skipped(claim) => {
                &&& claimable(old(store)@.queue, claim.key())
                &&& claim.attempts == old(store)@.queue[claim.key()].attempts
                &&& final(store)@.queue == old(store)@.queue.remove(claim.key())
                &&& {
                    ||| !address_accepted(claim.recipient@)
                    ||| mailbox_accepted(sender_mailbox(sender.0@, sender.1@)) && !mailbox_accepted(
                        recipient_mailbox(claim.recipient@),
                    )
                }
            },
            WorkerStep::Send(claim, email) => {
                &&& claimable(old(store)@.queue, claim.key())
                &&& claim.attempts == old(store)@.queue[claim.key()].attempts
                &&& final(store)@.queue == claimed(old(store)@.queue, claim.key())
                &&& old(store)@.issues.dom().contains(claim.issue_id)
                &&& deliverable(claim.recipient@)
                &&& mailbox_accepted(sender_mailbox(sender.0@, sender.1@))
                &&& email@ == (EmailModel {
                    from: sender_mailbox(sender.0@, sender.1@),
                    to: recipient_mailbox(claim.recipient@),
                    subject: old(store)@.issues[claim.issue_id].title,
                    plain: old(store)@.issues[claim.issue_id].text_content,
                    html: old(store)@.issues[claim.issue_id].html_content,
                })
            },
        },
{
    let ghost before = store@.queue;
    let claim = match store.outbox.dequeue() {
        None => {
            return WorkerStep::Idle;
        },
        Some(claim) => claim,
    };
    let ghost key = claim.key();
    proof {
        assert(claimed(before, key).remove(key) =~= before.remove(key));
        assert(claimed(before, key).insert(
            key,
            TaskState { attempts: before[key].attempts, held: false },
        ) =~= before);
    }
    let issue = store.archive.get(claim.issue_id);
    match prepare(sender, &claim.recipient, issue) {
        Preparation::Ready(email) => WorkerStep::Send(claim, email),
        Preparation::Undeliverable => {
            let _ = store.outbox.discard(claim.issue_id, &claim.recipient);
            WorkerStep::Skipped(claim)
        },
        Preparation::Misconfigured => {
            let _ = store.outbox.abandon(claim.issue_id, &claim.recipient);
            WorkerStep::Misconfigured
        },
    }
}

/// Records how the send for a claimed task ended: the task is removed after
/// a delivery, a rejection or the last permitted failure, and waits again
/// otherwise. The ledger and the archive are not touched, and of the queue
/// only the claimed task. A claim whose task is gone or not held changes nothing.
pub fn record(
    store: &mut Store,
    claim: &Claim,
    sent: &Result<(), TransportError>,
    policy: &RetryPolicy,
) -> (fate: Option<TaskFate>)
    requires
        old(store).wf(),
    ensures
        final(store).wf(),
        final(store)@.ledger == old(store)@.ledger,
        final(store)@.issues == old(store)@.issues,
        ({
            let key = claim.key();
            let queue = old(store)@.queue;
            let held = queue.dom().contains(key) && queue[key].held;
            &&& fate is Some <==> held
            &&& held ==> fate == Some(
                fate_of(queue[key].attempts, policy.max_attempts(), outcome_of(*sent)),
            ) && final(store)@.queue == settled(
                queue,
                key,
                policy.max_attempts(),
                outcome_of(*sent),
            )
            &&& !held ==> final(store)@ == old(store)@
        }),
{
    store.outbox.settle(claim.issue_id, &claim.recipient, classify(sent), policy)
}

} // verus!
