use zero2prod::domain::{NewSubscriber, SubscriberEmail, SubscriberName};
use zero2prod::idempotency::IdempotencyKey;
use zero2prod::issues::{Archive, NewsletterIssue};
use zero2prod::ledger::NextAction;
use zero2prod::publish::{PublishError, Store};
use zero2prod::subscribers::{RowError, Subscribers, SubscriptionStatus};

fn person(name: &str, email: &str) -> NewSubscriber {
    NewSubscriber {
        email: SubscriberEmail::parse(email.to_string()).unwrap(),
        name: SubscriberName::parse(name.to_string()).unwrap(),
    }
}

fn issue(issue_id: u128, title: &str) -> NewsletterIssue {
    NewsletterIssue {
        issue_id,
        title: title.to_string(),
        text_content: "text".to_string(),
        html_content: "<p>html</p>".to_string(),
        published_at: 12,
    }
}

#[test]
fn subscribers_are_unique_by_identifier_and_address() {
    let mut subscribers = Subscribers::new();
    assert_eq!(subscribers.insert_subscriber_as(1, &person("a", "a@x.com"), 5), Ok(()));
    assert_eq!(
        subscribers.insert_subscriber_as(1, &person("b", "b@x.com"), 5),
        Err(RowError::DuplicateId)
    );
    assert_eq!(
        subscribers.insert_subscriber_as(2, &person("b", "a@x.com"), 5),
        Err(RowError::DuplicateEmail)
    );
    // Both at once: the identifier is looked at first.
    assert_eq!(
        subscribers.insert_subscriber_as(1, &person("b", "a@x.com"), 5),
        Err(RowError::DuplicateId)
    );
    assert_eq!(subscribers.len(), 1);
    let saved = subscribers.get(1).unwrap();
    assert_eq!(saved.name, "a");
    assert_eq!(saved.subscribed_at, 5);
    assert_eq!(saved.status, SubscriptionStatus::PendingConfirmation);
    assert!(subscribers.find_by_email("b@x.com").is_none());
}

#[test]
fn tokens_belong_to_known_subscribers_and_are_unique() {
    let mut subscribers = Subscribers::new();
    subscribers.insert_subscriber_as(1, &person("a", "a@x.com"), 5).unwrap();
    subscribers.insert_subscriber_as(2, &person("b", "b@x.com"), 5).unwrap();
    assert_eq!(subscribers.store_token(3, "t"), Err(RowError::UnknownSubscriber));
    assert_eq!(subscribers.store_token(1, "t"), Ok(()));
    assert_eq!(subscribers.store_token(2, "t"), Err(RowError::DuplicateToken));
    assert_eq!(subscribers.store_token(1, "u"), Ok(()));
    assert_eq!(subscribers.get_subscriber_id_from_token("t"), Some(1));
    assert_eq!(subscribers.get_subscriber_id_from_token("u"), Some(1));
    assert_eq!(subscribers.get_subscriber_id_from_token("v"), None);
    assert_eq!(RowError::UnknownSubscriber.message(), "no subscriber has this identifier");
}

#[test]
fn only_confirmed_subscribers_are_listed() {
    let mut subscribers = Subscribers::new();
    subscribers.insert_subscriber_as(1, &person("a", "a@x.com"), 5).unwrap();
    subscribers.insert_subscriber_as(2, &person("b", "b@x.com"), 5).unwrap();
    subscribers.insert_subscriber_as(3, &person("c", "c@x.com"), 5).unwrap();
    assert!(subscribers.confirmed_emails().is_empty());
    assert!(subscribers.confirm_subscriber(3));
    assert!(subscribers.confirm_subscriber(1));
    assert!(subscribers.confirm_subscriber(1));
    assert!(!subscribers.confirm_subscriber(9));
    assert_eq!(subscribers.confirmed_emails(), vec!["a@x.com".to_string(), "c@x.com".to_string()]);
    assert_eq!(subscribers.get(2).unwrap().status.as_str(), "pending_confirmation");
    assert_eq!(subscribers.get(3).unwrap().status.as_str(), "confirmed");
    assert_eq!(subscribers.get(3).unwrap().subscribed_at, 5);
}

#[test]
fn issues_are_stored_once_and_never_change() {
    let mut archive = Archive::new();
    assert!(archive.insert(issue(1, "first")));
    assert!(!archive.insert(issue(1, "second")));
    assert!(archive.insert(issue(2, "second")));
    assert_eq!(archive.len(), 2);
    assert!(archive.contains(1));
    assert!(!archive.contains(3));
    let stored = archive.get(1).unwrap();
    assert_eq!(stored.title, "first");
    assert_eq!(stored.text_content, "text");
    assert_eq!(stored.html_content, "<p>html</p>");
    assert_eq!(stored.published_at, 12);
    assert!(archive.get(3).is_none());
}

#[test]
fn a_request_ends_only_after_it_began() {
    let mut store = Store::new();
    let key = IdempotencyKey::try_from("k".to_string()).unwrap();
    let nobody: Vec<String> = Vec::new();
    assert_eq!(store.finish(1, &key, issue(1, "t"), &nobody).unwrap_err(), PublishError::NotBegun);
    assert_eq!(store.archive.len(), 0);
    assert!(!store.rollback(1, &key));

    assert!(matches!(store.begin(1, &key), NextAction::StartProcessing));
    assert!(store.rollback(1, &key));
    assert_eq!(store.ledger.len(), 0);

    assert!(matches!(store.begin(1, &key), NextAction::StartProcessing));
    store.finish(1, &key, issue(1, "t"), &nobody).unwrap();
    assert_eq!(store.finish(1, &key, issue(2, "t"), &nobody).unwrap_err(), PublishError::NotBegun);
    assert!(!store.rollback(1, &key));
    assert_eq!(store.archive.len(), 1);
    assert_eq!(store.ledger.len(), 1);
}

#[test]
fn tasks_are_queued_for_the_subscribers_of_the_first_submission() {
    let mut store = Store::new();
    let key = IdempotencyKey::try_from("k".to_string()).unwrap();
    let early = vec!["a@x.com".to_string(), "b@x.com".to_string()];
    let late = vec!["a@x.com".to_string(), "b@x.com".to_string(), "c@x.com".to_string()];
    store.publish_with(1, &key, issue(1, "t"), &early).unwrap();
    store.publish_with(1, &key, issue(2, "t"), &late).unwrap();
    assert_eq!(store.outbox.len(), 2);
    assert!(store.outbox.inspect(1, &"c@x.com".to_string()).is_none());
    assert!(store.outbox.inspect(2, &"c@x.com".to_string()).is_none());
}
