use zero2prod::orchestrator::{advance, Command, Event, LookupPolicy, Phase};
use zero2prod::response::SavedResponse;

const POLICY: LookupPolicy = LookupPolicy { max_lookups: 3, pause_ms: 20 };

fn accepted() -> SavedResponse {
    SavedResponse::see_other("/admin/newsletters")
}

#[test]
fn the_first_request_writes_saves_and_replies() {
    let (phase, command) = advance(POLICY, Phase::Fresh, Event::Arrived);
    assert_eq!(phase, Phase::Inserting(0));
    assert!(matches!(command, Command::InsertPlaceholder));
    let (phase, command) = advance(POLICY, phase, Event::Inserted(true));
    assert_eq!(phase, Phase::Writing(0));
    assert!(matches!(command, Command::WriteIssue));
    let (phase, command) = advance(POLICY, phase, Event::Written);
    assert_eq!(phase, Phase::Saving(0));
    match command {
        Command::SaveAndCommit(response) => assert!(response.same_as(&accepted())),
        other => panic!("unexpected command: {:?}", other),
    }
    let (phase, command) = advance(POLICY, phase, Event::Committed);
    assert_eq!(phase, Phase::Done);
    match command {
        Command::Reply(response) => assert!(response.same_as(&accepted())),
        other => panic!("unexpected command: {:?}", other),
    }
}

#[test]
fn a_duplicate_replays_what_it_finds() {
    let (phase, command) = advance(POLICY, Phase::Inserting(0), Event::Inserted(false));
    assert_eq!(phase, Phase::Rereading(1));
    assert!(matches!(command, Command::ReadSaved));
    let found = SavedResponse { status_code: 303, headers: Vec::new(), body: b"saved".to_vec() };
    let (phase, command) = advance(POLICY, phase, Event::FoundSaved(found.duplicate()));
    assert_eq!(phase, Phase::Done);
    match command {
        Command::Reply(response) => assert!(response.same_as(&found)),
        other => panic!("unexpected command: {:?}", other),
    }
}

#[test]
fn a_duplicate_that_keeps_meeting_a_placeholder_gives_up() {
    let (mut phase, _) = advance(POLICY, Phase::Inserting(0), Event::Inserted(false));
    let mut rereads = 1;
    loop {
        let (resting, command) = advance(POLICY, phase, Event::FoundPlaceholder);
        match command {
            Command::Pause(ms) => assert_eq!(ms, 20),
            Command::Fail => {
                assert_eq!(resting, Phase::Done);
                break;
            },
            other => panic!("unexpected command: {:?}", other),
        }
        let (next, command) = advance(POLICY, resting, Event::Rested);
        assert!(matches!(command, Command::ReadSaved));
        rereads += 1;
        phase = next;
    }
    assert_eq!(rereads, 3);
}

#[test]
fn a_vanished_placeholder_lets_the_duplicate_do_the_work() {
    let (phase, command) = advance(POLICY, Phase::Rereading(2), Event::FoundNothing);
    assert_eq!(phase, Phase::Inserting(2));
    assert!(matches!(command, Command::InsertPlaceholder));
    let (phase, command) = advance(POLICY, phase, Event::Inserted(false));
    assert_eq!(phase, Phase::Rereading(3));
    assert!(matches!(command, Command::ReadSaved));
    let (phase, command) = advance(POLICY, phase, Event::FoundNothing);
    assert_eq!(phase, Phase::Inserting(3));
    assert!(matches!(command, Command::InsertPlaceholder));
    let (phase, command) = advance(POLICY, phase, Event::Inserted(false));
    assert_eq!(phase, Phase::Done);
    assert!(matches!(command, Command::Fail));
}

#[test]
fn store_failures_and_stray_events_end_the_request() {
    for phase in [Phase::Inserting(0), Phase::Rereading(1), Phase::Writing(0), Phase::Saving(0)] {
        let (next, command) = advance(POLICY, phase, Event::StoreFailed);
        assert_eq!(next, Phase::Done);
        assert!(matches!(command, Command::Fail));
    }
    let (next, command) = advance(POLICY, Phase::Fresh, Event::Committed);
    assert_eq!(next, Phase::Done);
    assert!(matches!(command, Command::Fail));
    let (next, command) = advance(POLICY, Phase::Done, Event::Arrived);
    assert_eq!(next, Phase::Done);
    assert!(matches!(command, Command::Fail));
}
