use linkify::{LinkFinder, LinkKind};
use zero2prod::routes::subscription_confirm::{
    after_confirmation, after_token_lookup, confirm, Parameters, StoreReply,
    SubscriptionConfirmError,
};
use zero2prod::routes::subscriptions::{subscribe, FormData, Welcome};
use zero2prod::startup::ApplicationBaseUrl;
use zero2prod::subscribers::Subscribers;


fn post_subscription(subscribers: &mut Subscribers, name: &str, email: &str) -> Welcome {
    let form = FormData { email: email.to_string(), name: name.to_string() };
    subscribe(subscribers, form, &ApplicationBaseUrl("http://127.0.0.1".to_string())).unwrap()
}

fn get_confirmation_token(welcome: &Welcome) -> String {
    let get_link = |s: &str| {
        let links: Vec<_> =
            LinkFinder::new().links(s).filter(|l| *l.kind() == LinkKind::Url).collect();
        assert_eq!(links.len(), 1);
        links[0].as_str().to_owned()
    };
    let html = get_link(&welcome.email.html);
    let plain_text = get_link(&welcome.email.text);
    assert_eq!(html, plain_text);
    let (address, token) = html.split_once("subscription_token=").unwrap();
    assert_eq!(address, "http://127.0.0.1/subscriptions/confirm?");
    token.to_string()
}

#[test]
fn the_link_returned_by_subscribe_returns_a_200_if_called() {
    let mut subscribers = Subscribers::new();
    let welcome = post_subscription(&mut subscribers, "le guin", "ursula_le_guin@gmail.com");
    let subscription_token = get_confirmation_token(&welcome);

    let response = confirm(&mut subscribers, &Parameters { subscription_token });

    assert_eq!(response.unwrap(), 200);
}

#[test]
fn click_on_the_confirmation_link_confirms_a_subscriber() {
    let mut subscribers = Subscribers::new();
    let welcome = post_subscription(&mut subscribers, "le guin", "ursula_le_guin@gmail.com");
    let subscription_token = get_confirmation_token(&welcome);

    let response = confirm(&mut subscribers, &Parameters { subscription_token });
    assert_eq!(response.unwrap(), 200);

    let saved = subscribers
        .find_by_email("ursula_le_guin@gmail.com")
        .expect("Failed to fetch saved subscriptions.");
    assert_eq!(saved.email, "ursula_le_guin@gmail.com");
    assert_eq!(saved.name, "le guin");
    assert_eq!(saved.status.as_str(), "confirmed");
    assert_eq!(subscribers.confirmed_emails(), vec!["ursula_le_guin@gmail.com".to_string()]);
}

#[test]
fn an_unknown_token_is_rejected_with_a_401() {
    let mut subscribers = Subscribers::new();
    post_subscription(&mut subscribers, "le guin", "ursula_le_guin@gmail.com");
    let error = confirm(&mut subscribers, &Parameters { subscription_token: "nobody".to_string() })
        .unwrap_err();
    assert!(matches!(error, SubscriptionConfirmError::UnauthorizedError));
    assert_eq!(error.status_code(), 401);
    assert_eq!(error.message(), "you cannot access this page");
    assert!(subscribers.confirmed_emails().is_empty());
}

#[test]
fn confirming_twice_changes_nothing() {
    let mut subscribers = Subscribers::new();
    let first = post_subscription(&mut subscribers, "a", "a@x.com");
    post_subscription(&mut subscribers, "b", "b@x.com");
    let subscription_token = get_confirmation_token(&first);
    for _ in 0..2 {
        let parameters = Parameters { subscription_token: subscription_token.clone() };
        assert_eq!(confirm(&mut subscribers, &parameters).unwrap(), 200);
        assert_eq!(subscribers.confirmed_emails(), vec!["a@x.com".to_string()]);
    }
    assert_eq!(subscribers.len(), 2);
}

#[test]
fn store_failures_during_confirmation_are_server_errors() {
    let lookup = after_token_lookup(StoreReply::Failed("connection reset".to_string())).unwrap_err();
    assert_eq!(lookup.status_code(), 500);
    assert_eq!(lookup.message(), "Failed to find the requested user");
    match lookup {
        SubscriptionConfirmError::UnexpectedError(chain) => {
            assert_eq!(chain[1], "connection reset")
        },
        other => panic!("unexpected error: {:?}", other),
    }
    let update = after_confirmation(StoreReply::Failed("connection reset".to_string())).unwrap_err();
    assert_eq!(update.status_code(), 500);
    assert_eq!(update.message(), "Failed to edit the subscriber record");
    assert_eq!(after_token_lookup(StoreReply::Answered(Some(5))).unwrap(), 5);
    assert_eq!(after_confirmation(StoreReply::Answered(())).unwrap(), 200);
    assert_eq!(SubscriptionConfirmError::NotFoundError.status_code(), 404);
    assert_eq!(SubscriptionConfirmError::NotFoundError.message(), "subscriber was not found");
}
