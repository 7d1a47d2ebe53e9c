use zero2prod::idempotency::{IdempotencyKey, KeyError};
use zero2prod::ledger::{Ledger, LedgerError, NextAction};
use zero2prod::response::{bytes_equal, copy_bytes, HeaderPair, SavedResponse};

fn key(text: &str) -> IdempotencyKey {
    IdempotencyKey::try_from(text.to_string()).unwrap()
}

fn response(status_code: u16, body: &str) -> SavedResponse {
    SavedResponse {
        status_code,
        headers: vec![
            HeaderPair { name: "location".to_string(), value: b"/admin/newsletters".to_vec() },
            HeaderPair { name: "set-cookie".to_string(), value: vec![0xff, 0x00, 0x7f] },
        ],
        body: body.as_bytes().to_vec(),
    }
}

#[test]
fn keys_are_non_empty_and_at_most_fifty_characters() {
    assert_eq!(IdempotencyKey::try_from(String::new()).unwrap_err(), KeyError::Empty);
    assert_eq!(IdempotencyKey::try_from("k".repeat(51)).unwrap_err(), KeyError::TooLong);
    assert_eq!(key(&"k".repeat(50)).as_str(), "k".repeat(50));
    assert_eq!(key("a").as_str(), "a");
    // The bound counts characters, not bytes.
    assert_eq!(key(&"é".repeat(50)).as_str().len(), 100);
    assert_eq!(IdempotencyKey::try_from("é".repeat(51)).unwrap_err(), KeyError::TooLong);
    assert_eq!(KeyError::Empty.message(), "The idempotency key cannot be empty");
    assert_eq!(
        KeyError::TooLong.message(),
        "The idempotency key must be at most 50 characters long"
    );
}

#[test]
fn keys_are_equal_when_their_text_is() {
    assert!(key("abc123").same_as(&key("abc123")));
    assert!(!key("abc123").same_as(&key("ABC123")));
    assert!(!key("abc123").same_as(&key("abc1234")));
    assert!(key("abc123").duplicate().same_as(&key("abc123")));
}

#[test]
fn the_first_request_starts_and_the_rest_wait_or_replay() {
    let mut ledger = Ledger::new();
    assert!(ledger.lookup(1, &key("k")).is_none());
    assert!(matches!(ledger.try_begin(1, &key("k")), NextAction::StartProcessing));
    assert!(matches!(ledger.try_begin(1, &key("k")), NextAction::RetryLater));
    assert!(matches!(ledger.lookup(1, &key("k")), Some(None)));
    assert_eq!(ledger.len(), 1);

    assert_eq!(ledger.complete(1, &key("k"), response(303, "")), Ok(()));
    match ledger.try_begin(1, &key("k")) {
        NextAction::ReturnSavedResponse(saved) => assert!(saved.same_as(&response(303, ""))),
        other => panic!("unexpected action: {:?}", other),
    }
    assert_eq!(ledger.len(), 1);
}

#[test]
fn a_saved_response_is_never_overwritten() {
    let mut ledger = Ledger::new();
    assert_eq!(ledger.complete(1, &key("k"), response(303, "")), Err(LedgerError::NotStarted));
    ledger.try_begin(1, &key("k"));
    assert_eq!(ledger.complete(1, &key("k"), response(303, "first")), Ok(()));
    assert_eq!(ledger.complete(1, &key("k"), response(200, "second")), Err(LedgerError::AlreadySaved));
    assert!(!ledger.release(1, &key("k")));
    let saved = ledger.lookup(1, &key("k")).unwrap().unwrap();
    assert_eq!(saved.status_code, 303);
    assert_eq!(saved.body, b"first".to_vec());
}

#[test]
fn a_released_placeholder_frees_the_key() {
    let mut ledger = Ledger::new();
    assert!(!ledger.release(1, &key("k")));
    ledger.try_begin(1, &key("k"));
    ledger.try_begin(2, &key("k"));
    assert!(ledger.release(1, &key("k")));
    assert_eq!(ledger.len(), 1);
    assert!(matches!(ledger.try_begin(2, &key("k")), NextAction::RetryLater));
    assert!(matches!(ledger.try_begin(1, &key("k")), NextAction::StartProcessing));
}

#[test]
fn rows_are_kept_per_principal_and_key() {
    let mut ledger = Ledger::new();
    ledger.try_begin(1, &key("k"));
    ledger.complete(1, &key("k"), response(303, "one")).unwrap();
    assert!(matches!(ledger.try_begin(2, &key("k")), NextAction::StartProcessing));
    assert!(matches!(ledger.try_begin(1, &key("l")), NextAction::StartProcessing));
    assert_eq!(ledger.len(), 3);
}

#[test]
fn snapshots_compare_byte_for_byte() {
    let original = response(303, "body");
    assert!(original.same_as(&original.duplicate()));
    assert!(!original.same_as(&response(302, "body")));
    assert!(!original.same_as(&response(303, "Body")));
    let mut reordered = response(303, "body");
    reordered.headers.reverse();
    assert!(!original.same_as(&reordered));
    let mut shorter = response(303, "body");
    shorter.headers.pop();
    assert!(!original.same_as(&shorter));
    let mut other_value = response(303, "body");
    other_value.headers[1].value[0] = 0xfe;
    assert!(!original.same_as(&other_value));
    assert!(original.headers[0].same_as(&original.headers[0].duplicate()));
    assert!(!original.headers[0].same_as(&original.headers[1]));
}

#[test]
fn bytes_are_copied_and_compared_exactly() {
    let bytes = vec![0u8, 1, 2, 255];
    assert_eq!(copy_bytes(&bytes), bytes);
    assert_eq!(copy_bytes(&Vec::new()), Vec::<u8>::new());
    assert!(bytes_equal(&bytes, &vec![0u8, 1, 2, 255]));
    assert!(!bytes_equal(&bytes, &vec![0u8, 1, 2]));
    assert!(!bytes_equal(&bytes, &vec![0u8, 1, 2, 254]));
    assert!(bytes_equal(&Vec::new(), &Vec::new()));
}

#[test]
fn the_acknowledgement_is_a_see_other_redirect() {
    let response = SavedResponse::see_other("/admin/newsletters");
    assert_eq!(response.status_code, 303);
    assert_eq!(response.headers.len(), 1);
    assert_eq!(response.headers[0].name, "location");
    assert_eq!(response.headers[0].value, b"/admin/newsletters".to_vec());
    assert!(response.body.is_empty());
}

#[test]
fn form_keys_are_hyphenated_identifiers() {
    assert_eq!(
        IdempotencyKey::from_id(0x0123_4567_89ab_cdef_0123_4567_89ab_cdef).as_str(),
        "01234567-89ab-cdef-0123-456789abcdef"
    );
    assert_eq!(IdempotencyKey::from_id(0).as_str(), "00000000-0000-0000-0000-000000000000");
    assert_eq!(IdempotencyKey::from_id(u128::MAX).as_str(), "ffffffff-ffff-ffff-ffff-ffffffffffff");
    assert_eq!(
        IdempotencyKey::from_id(0xfedc_ba98_7654_3210_0f1e_2d3c_4b5a_6978).as_str(),
        "fedcba98-7654-3210-0f1e-2d3c4b5a6978"
    );
    let first = IdempotencyKey::generate();
    let second = IdempotencyKey::generate();
    assert!(!first.same_as(&second));
    for key in [&first, &second] {
        let text = key.as_str();
        assert_eq!(text.len(), 36);
        assert_eq!(&text[14..15], "4");
        assert!(matches!(&text[19..20], "8" | "9" | "a" | "b"));
        assert!(IdempotencyKey::try_from(text.to_string()).unwrap().same_as(key));
    }
}
