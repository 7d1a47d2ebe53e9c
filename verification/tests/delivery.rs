use zero2prod::delivery::{decide, RetryPolicy, SendOutcome, TaskFate, TaskState};
use zero2prod::domain::{SubscriberEmail, SubscriberName};
use zero2prod::email_client::{SenderInfo, TransportError};
use zero2prod::issues::NewsletterIssue;
use zero2prod::outbox::Outbox;
use zero2prod::publish::Store;
use zero2prod::idempotency::IdempotencyKey;
use zero2prod::worker::{
    next_task, pause_after, prepare, record, CycleOutcome, Preparation, WorkerStep,
};

fn sender() -> SenderInfo {
    SenderInfo(
        SubscriberName::parse("test".to_string()).unwrap(),
        SubscriberEmail::parse("sender@example.com".to_string()).unwrap(),
    )
}

fn store_with_issue(recipients: &[&str]) -> Store {
    let mut store = Store::new();
    let key = IdempotencyKey::try_from("abc123".to_string()).unwrap();
    let issue = NewsletterIssue {
        issue_id: 1,
        title: "T".to_string(),
        text_content: "text".to_string(),
        html_content: "<p>html</p>".to_string(),
        published_at: 0,
    };
    let recipients: Vec<String> = recipients.iter().map(|r| r.to_string()).collect();
    store.publish_with(7, &key, issue, &recipients).unwrap();
    store
}

#[test]
fn policy_needs_at_least_one_attempt() {
    assert!(RetryPolicy::new(0, 10).is_none());
    let policy = RetryPolicy::new(1, 10).unwrap();
    assert_eq!(policy.max_attempts(), 1);
    assert_eq!(policy.idle_pause_ms(), 10);
    let standard = RetryPolicy::standard();
    assert_eq!(standard.max_attempts(), 3);
    assert_eq!(standard.idle_pause_ms(), 50);
}

#[test]
fn fate_follows_outcome_and_attempts() {
    let policy = RetryPolicy::standard();
    assert_eq!(decide(0, &policy, SendOutcome::Delivered), TaskFate::Delivered);
    assert_eq!(decide(2, &policy, SendOutcome::Permanent), TaskFate::Skipped);
    assert_eq!(decide(0, &policy, SendOutcome::Recoverable), TaskFate::Requeued);
    assert_eq!(decide(1, &policy, SendOutcome::Recoverable), TaskFate::Requeued);
    assert_eq!(decide(2, &policy, SendOutcome::Recoverable), TaskFate::Exhausted);
    assert_eq!(decide(u32::MAX, &policy, SendOutcome::Recoverable), TaskFate::Exhausted);
    let once = RetryPolicy::new(1, 0).unwrap();
    assert_eq!(decide(0, &once, SendOutcome::Recoverable), TaskFate::Exhausted);
}

#[test]
fn enqueue_adds_each_recipient_once() {
    let mut queue = Outbox::new();
    let recipients = vec!["a@x.com".to_string(), "b@x.com".to_string(), "a@x.com".to_string()];
    assert_eq!(queue.enqueue(1, &recipients), 2);
    assert_eq!(queue.enqueue(1, &recipients), 0);
    assert_eq!(queue.enqueue(2, &vec!["a@x.com".to_string()]), 1);
    assert_eq!(queue.len(), 3);
    assert_eq!(
        queue.inspect(1, &"a@x.com".to_string()),
        Some(TaskState { attempts: 0, held: false })
    );
    assert_eq!(queue.inspect(3, &"a@x.com".to_string()), None);
}

#[test]
fn a_recipient_that_always_fails_is_attempted_three_times() {
    let mut store = store_with_issue(&["a@x.com"]);
    let policy = RetryPolicy::standard();
    let mut attempts = 0;
    let mut fates = Vec::new();
    loop {
        match next_task(&mut store, &sender()) {
            WorkerStep::Send(claim, _email) => {
                assert_eq!(claim.attempts, attempts);
                attempts += 1;
                let sent = Err(TransportError::Transient("connection refused".to_string()));
                fates.push(record(&mut store, &claim, &sent, &policy).unwrap());
            },
            WorkerStep::Idle => break,
            other => panic!("unexpected step: {:?}", other),
        }
    }
    assert_eq!(attempts, 3);
    assert_eq!(fates, vec![TaskFate::Requeued, TaskFate::Requeued, TaskFate::Exhausted]);
    assert_eq!(store.outbox.len(), 0);
}

#[test]
fn a_timeout_counts_as_one_failed_attempt() {
    let mut store = store_with_issue(&["a@x.com"]);
    let policy = RetryPolicy::new(2, 0).unwrap();
    let claim = match next_task(&mut store, &sender()) {
        WorkerStep::Send(claim, _) => claim,
        other => panic!("unexpected step: {:?}", other),
    };
    assert_eq!(record(&mut store, &claim, &Err(TransportError::TimedOut), &policy), Some(TaskFate::Requeued));
    assert_eq!(
        store.outbox.inspect(1, &"a@x.com".to_string()),
        Some(TaskState { attempts: 1, held: false })
    );
    let claim = match next_task(&mut store, &sender()) {
        WorkerStep::Send(claim, _) => claim,
        other => panic!("unexpected step: {:?}", other),
    };
    assert_eq!(claim.attempts, 1);
    assert_eq!(record(&mut store, &claim, &Ok(()), &policy), Some(TaskFate::Delivered));
    assert_eq!(store.outbox.len(), 0);
}

#[test]
fn an_invalid_recipient_does_not_stop_the_others() {
    let mut store = store_with_issue(&["first@x.com", "not-an-address", "third@x.com", "a@b>c"]);
    assert_eq!(store.outbox.len(), 4);
    let policy = RetryPolicy::standard();
    let mut delivered: Vec<String> = Vec::new();
    let mut skipped: Vec<String> = Vec::new();
    loop {
        match next_task(&mut store, &sender()) {
            WorkerStep::Send(claim, email) => {
                delivered.push(email.to().to_string());
                assert_eq!(record(&mut store, &claim, &Ok(()), &policy), Some(TaskFate::Delivered));
            },
            WorkerStep::Skipped(claim) => skipped.push(claim.recipient.clone()),
            WorkerStep::Idle => break,
            WorkerStep::Misconfigured => panic!("the sender is no mailbox"),
        }
    }
    delivered.sort();
    assert_eq!(delivered, vec![" <first@x.com>".to_string(), " <third@x.com>".to_string()]);
    skipped.sort();
    assert_eq!(skipped, vec!["a@b>c".to_string(), "not-an-address".to_string()]);
    assert_eq!(store.outbox.len(), 0);
}

#[test]
fn a_rejected_message_is_not_retried_and_others_go_on() {
    let mut store = store_with_issue(&["a@x.com", "b@x.com"]);
    let policy = RetryPolicy::standard();
    let first = match next_task(&mut store, &sender()) {
        WorkerStep::Send(claim, _) => claim,
        other => panic!("unexpected step: {:?}", other),
    };
    let sent = Err(TransportError::Rejected("550 no such user".to_string()));
    assert_eq!(record(&mut store, &first, &sent, &policy), Some(TaskFate::Skipped));
    assert_eq!(store.outbox.len(), 1);
    let second = match next_task(&mut store, &sender()) {
        WorkerStep::Send(claim, _) => claim,
        other => panic!("unexpected step: {:?}", other),
    };
    assert_ne!(first.recipient, second.recipient);
    assert_eq!(second.attempts, 0);
}

#[test]
fn concurrent_cycles_never_claim_the_same_task() {
    let mut store = store_with_issue(&["a@x.com", "b@x.com", "c@x.com"]);
    let policy = RetryPolicy::standard();
    // Four cycles ask for a task before any of them has sent.
    let mut claims = Vec::new();
    for _ in 0..4 {
        if let WorkerStep::Send(claim, _) = next_task(&mut store, &sender()) {
            claims.push(claim);
        }
    }
    assert_eq!(claims.len(), 3);
    let mut recipients: Vec<String> = claims.iter().map(|c| c.recipient.clone()).collect();
    recipients.sort();
    recipients.dedup();
    assert_eq!(recipients.len(), 3);
    assert!(matches!(next_task(&mut store, &sender()), WorkerStep::Idle));
    assert_eq!(store.outbox.len(), 3);
    for claim in &claims {
        assert_eq!(record(&mut store, claim, &Ok(()), &policy), Some(TaskFate::Delivered));
        // A second record for the same claim finds nothing to settle.
        assert_eq!(record(&mut store, claim, &Ok(()), &policy), None);
    }
    assert_eq!(store.outbox.len(), 0);
}

#[test]
fn an_abandoned_claim_waits_again_without_a_counted_attempt() {
    let mut queue = Outbox::new();
    queue.enqueue(1, &vec!["a@x.com".to_string()]);
    let claim = queue.dequeue().unwrap();
    assert_eq!(queue.inspect(1, &claim.recipient), Some(TaskState { attempts: 0, held: true }));
    assert!(queue.dequeue().is_none());
    assert!(queue.abandon(1, &claim.recipient));
    assert!(!queue.abandon(1, &claim.recipient));
    assert_eq!(queue.inspect(1, &claim.recipient), Some(TaskState { attempts: 0, held: false }));
    // A task that is not held cannot be settled or discarded.
    let policy = RetryPolicy::standard();
    assert_eq!(queue.settle(1, &claim.recipient, SendOutcome::Delivered, &policy), None);
    assert!(!queue.discard(1, &claim.recipient));
    assert_eq!(queue.len(), 1);
    let again = queue.dequeue().unwrap();
    assert!(queue.discard(1, &again.recipient));
    assert_eq!(queue.len(), 0);
}

#[test]
fn the_worker_rests_only_when_idle_or_failing() {
    let policy = RetryPolicy::new(3, 25).unwrap();
    assert_eq!(pause_after(CycleOutcome::TaskCompleted, &policy), None);
    assert_eq!(pause_after(CycleOutcome::EmptyQueue, &policy), Some(25));
    assert_eq!(pause_after(CycleOutcome::Failed, &policy), Some(1000));
}

#[test]
fn messages_are_prepared_for_addresses_only() {
    let issue = || {
        Some(NewsletterIssue {
            issue_id: 1,
            title: "T".to_string(),
            text_content: "text".to_string(),
            html_content: "<p>html</p>".to_string(),
            published_at: 0,
        })
    };
    match prepare(&sender(), &"a@x.com".to_string(), issue()) {
        Preparation::Ready(email) => {
            assert_eq!(email.to(), " <a@x.com>");
            assert_eq!(email.subject(), "T");
            assert_eq!(email.plain(), "text");
            assert_eq!(email.html(), "<p>html</p>");
        },
        other => panic!("unexpected preparation: {:?}", other),
    }
    assert!(matches!(prepare(&sender(), &"a@x.com".to_string(), None), Preparation::Undeliverable));
    assert!(matches!(prepare(&sender(), &"nobody".to_string(), issue()), Preparation::Undeliverable));
    assert!(matches!(prepare(&sender(), &"a@b>c".to_string(), issue()), Preparation::Undeliverable));
}
