use linkify::{LinkFinder, LinkKind};
use zero2prod::routes::subscriptions::{
    after_confirmation_email, error_chain_fmt, generate_subscription_token, subscribe,
    subscribe_as, FormData, SubscribeError, Welcome,
};
use zero2prod::startup::ApplicationBaseUrl;
use zero2prod::subscribers::{Subscribers, SubscriptionStatus};
use zero2prod::domain::NewSubscriber;

const NOW: i64 = 1_700_000_000;

fn base_url() -> ApplicationBaseUrl {
    ApplicationBaseUrl("http://127.0.0.1".to_string())
}

fn post_subscription(
    subscribers: &mut Subscribers,
    name: &str,
    email: &str,
) -> Result<Welcome, SubscribeError> {
    let form = FormData { email: email.to_string(), name: name.to_string() };
    subscribe(subscribers, form, &base_url())
}

fn get_link(text: &str) -> String {
    let links: Vec<_> =
        LinkFinder::new().links(text).filter(|l| *l.kind() == LinkKind::Url).collect();
    assert_eq!(links.len(), 1);
    links[0].as_str().to_owned()
}

#[test]
fn subscribe_returns_a_200_for_valid_form_data() {
    let mut subscribers = Subscribers::new();
    let welcome = post_subscription(&mut subscribers, "le guin", "ursula_le_guin@gmail.com").unwrap();
    assert_eq!(200, welcome.status);
    assert_eq!(after_confirmation_email(Ok(())).unwrap(), 200);
}

#[test]
fn subscribe_persists_the_new_subscriber() {
    let mut subscribers = Subscribers::new();
    post_subscription(&mut subscribers, "le guin", "ursula_le_guin@gmail.com").unwrap();

    assert_eq!(subscribers.len(), 1);
    let saved = subscribers.find_by_email("ursula_le_guin@gmail.com").expect("Failed to fetch saved subscription");
    assert_eq!(saved.email, "ursula_le_guin@gmail.com");
    assert_eq!(saved.name, "le guin");
    assert_eq!(saved.status.as_str(), "pending_confirmation");
    assert!(saved.subscribed_at > 1_600_000_000);
    assert_eq!((saved.id >> 76) & 0xf, 4);
}

#[test]
fn subscribe_returns_a_400_when_fields_are_present_but_invalid() {
    let test_cases = vec![
        ("", "ursula_le_guin@gmail.com", "empty name"),
        ("Ursula", "", "empty email"),
        ("Ursula", "definitely-not-an-email", "invalid email"),
    ];
    for (name, email, description) in test_cases {
        let mut subscribers = Subscribers::new();
        let error = post_subscription(&mut subscribers, name, email).unwrap_err();
        assert_eq!(
            400,
            error.status_code(),
            "The api did not return a 400 Bad Request when the payload was {}",
            description
        );
        assert_eq!(subscribers.len(), 0);
    }
}

#[test]
fn subscribe_names_the_refused_field() {
    let mut subscribers = Subscribers::new();
    match post_subscription(&mut subscribers, " \t", "not an email").unwrap_err() {
        SubscribeError::ValidationError(text) => assert_eq!(text, " \t is not a valid subscriber name."),
        other => panic!("unexpected error: {:?}", other),
    }
    match post_subscription(&mut subscribers, "Ursula", "not an email").unwrap_err() {
        SubscribeError::ValidationError(text) => {
            assert_eq!(text, "not an email is not a valid subscriber email.")
        },
        other => panic!("unexpected error: {:?}", other),
    }
    let form = FormData { email: "ursula@example.com".to_string(), name: "Ursula".to_string() };
    let subscriber = NewSubscriber::try_from(form).unwrap();
    assert_eq!(subscriber.name.as_ref(), "Ursula");
    assert_eq!(subscriber.email.as_ref(), "ursula@example.com");
}

#[test]
fn subscribe_sends_a_confirmation_email_for_valid_data() {
    let mut subscribers = Subscribers::new();
    let welcome = post_subscription(&mut subscribers, "milad", "uadrula_le_guin@gmail.com").unwrap();
    assert_eq!(200, welcome.status);
    assert_eq!(welcome.recipient.as_ref(), "uadrula_le_guin@gmail.com");
    assert_eq!(welcome.email.subject, "Welcome");
}

#[test]
fn subscribe_sends_a_confirmation_email_with_a_link() {
    let mut subscribers = Subscribers::new();
    let welcome = post_subscription(&mut subscribers, "milad", "uadrula_le_guin@gmail.com").unwrap();

    let html = get_link(&welcome.email.html);
    let plain_text = get_link(&welcome.email.text);
    assert_eq!(html, plain_text);
    assert!(html.starts_with("http://127.0.0.1/subscriptions/confirm?subscription_token="));
    assert_eq!(200, welcome.status);
}

#[test]
fn confirmation_email_is_written_exactly() {
    let mut subscribers = Subscribers::new();
    let form = FormData { email: "a@x.com".to_string(), name: "A".to_string() };
    let welcome =
        subscribe_as(&mut subscribers, form, &base_url(), 9, "0123456789abcdefghijklmno", NOW).unwrap();
    let link = "http://127.0.0.1/subscriptions/confirm?subscription_token=0123456789abcdefghijklmno";
    assert_eq!(
        welcome.email.text,
        format!("Welcome to our newsletter click here to confirm your subscription {}", link)
    );
    assert_eq!(
        welcome.email.html,
        format!(
            "\n<h2>Welcome to our newsletter please click here <a href=\"{}\">here</a></h2>\n",
            link
        )
    );
    assert_eq!(subscribers.get_subscriber_id_from_token("0123456789abcdefghijklmno"), Some(9));
    assert_eq!(subscribers.get(9).unwrap().status, SubscriptionStatus::PendingConfirmation);
    assert_eq!(subscribers.get(9).unwrap().subscribed_at, NOW);
}

#[test]
fn subscribe_fails_if_there_is_a_fatal_database_error() {
    let mut subscribers = Subscribers::new();
    post_subscription(&mut subscribers, "milad", "uadrula_le_guin@gmail.com").unwrap();

    // The store refuses a second subscriber with the same address.
    let error = post_subscription(&mut subscribers, "milad", "uadrula_le_guin@gmail.com").unwrap_err();
    assert_eq!(error.status_code(), 500);
    match error {
        SubscribeError::UnexpectedError(chain) => {
            assert_eq!(
                chain,
                vec![
                    "Failed to insert a subscriber in the database.".to_string(),
                    "a subscriber with this address exists".to_string(),
                ]
            );
        },
        other => panic!("unexpected error: {:?}", other),
    }
    assert_eq!(subscribers.len(), 1);
}

#[test]
fn subscribe_refuses_taken_identifiers_and_tokens() {
    let mut subscribers = Subscribers::new();
    let form = |email: &str| FormData { email: email.to_string(), name: "A".to_string() };
    subscribe_as(&mut subscribers, form("a@x.com"), &base_url(), 1, "t1", NOW).unwrap();
    match subscribe_as(&mut subscribers, form("b@x.com"), &base_url(), 1, "t2", NOW).unwrap_err() {
        SubscribeError::UnexpectedError(chain) => {
            assert_eq!(chain[0], "Failed to insert a subscriber in the database.");
            assert_eq!(chain[1], "a subscriber with this identifier exists");
        },
        other => panic!("unexpected error: {:?}", other),
    }
    match subscribe_as(&mut subscribers, form("b@x.com"), &base_url(), 2, "t1", NOW).unwrap_err() {
        SubscribeError::UnexpectedError(chain) => {
            assert_eq!(chain[0], "Failed to store the confirmation token for a new subscriber");
            assert_eq!(chain[1], "the token is in use");
        },
        other => panic!("unexpected error: {:?}", other),
    }
    assert_eq!(subscribers.len(), 1);
    assert!(subscribers.get(2).is_none());
    assert_eq!(subscribers.get_subscriber_id_from_token("t2"), None);
}

#[test]
fn a_failed_confirmation_email_is_a_server_error() {
    let error = after_confirmation_email(Err("connection refused".to_string())).unwrap_err();
    assert_eq!(error.status_code(), 500);
    match error {
        SubscribeError::UnexpectedError(chain) => {
            assert_eq!(
                error_chain_fmt(&chain[0], &chain[1..].to_vec()),
                "Failed to send a confirmation email.\n\nCaused by:\n\tconnection refused\n"
            );
        },
        other => panic!("unexpected error: {:?}", other),
    }
}

#[test]
fn error_chain_lists_every_cause() {
    assert_eq!(error_chain_fmt("top", &Vec::new()), "top\n\n");
    assert_eq!(
        error_chain_fmt("top", &vec!["middle".to_string(), "bottom".to_string()]),
        "top\n\nCaused by:\n\tmiddle\nCaused by:\n\tbottom\n"
    );
}

#[test]
fn subscription_tokens_are_25_alphanumeric_characters() {
    let first = generate_subscription_token();
    let second = generate_subscription_token();
    for token in [&first, &second] {
        assert_eq!(token.chars().count(), 25);
        assert!(token.chars().all(|c| c.is_ascii_alphanumeric()));
    }
    assert_ne!(first, second);
}
