//! The publish request as a state machine, for a store that answers
//! asynchronously: each answer of the store is an event, and the machine
//! says what to ask of the store next.

use crate::publish::accepted_response;
use crate::response::SavedResponse;
use vstd::prelude::*;

verus! {

/// How often a request rereads a row that another request holds, and how
/// long it rests in between.
#[derive(Clone, Copy, Debug, PartialEq, Eq, Structural)]
pub struct LookupPolicy {
    pub max_lookups: u32,
    pub pause_ms: u64,
}

/// Where a request stands. Every waiting phase carries the number of
/// rereads made so far.
#[derive(Clone, Copy, Debug, PartialEq, Eq, Structural)]
pub enum Phase {
    /// Nothing was asked yet.
    Fresh,
    /// The placeholder insert is under way.
    Inserting(u32),
    /// The row of the other request is being reread.
    Rereading(u32),
    /// The request rests before it rereads.
    Resting(u32),
    /// The issue and its tasks are being written.
    Writing(u32),
    /// The acknowledgement is being saved and the transaction committed.
    Saving(u32),
    /// The request was answered.
    Done,
}

/// What the store, or the clock, reports.
#[derive(Debug)]
pub enum Event {
    /// The request came in.
    Arrived,
    /// The placeholder insert ended: the row was written, or a row was in
    /// the way.
    Inserted(bool),
    /// The reread found no row.
    FoundNothing,
    /// The reread found a placeholder.
    FoundPlaceholder,
    /// The reread found this response.
    FoundSaved(SavedResponse),
    /// The rest is over.
    Rested,
    /// The issue and its tasks are written.
    Written,
    /// The acknowledgement is saved and the transaction committed.
    Committed,
    /// The store failed; the transaction is rolled back.
    StoreFailed,
}

/// What to do next.
#[derive(Debug)]
pub enum Command {
    /// Open a transaction and insert the placeholder.
    InsertPlaceholder,
    /// Roll back and read the row of the other request.
    ReadSaved,
    /// Wait this many milliseconds.
    Pause(u64),
    /// Write the issue and one task per confirmed subscriber.
    WriteIssue,
    /// Save this response in the placeholder and commit.
    SaveAndCommit(SavedResponse),
    /// Answer the client with this response.
    Reply(SavedResponse),
    /// Answer the client with a server error.
    Fail,
}

/// The phase that follows `phase` on `event`.
pub open spec fn next_phase(policy: LookupPolicy, phase: Phase, event: Event) -> Phase {
    match (phase, event) {
        (Phase::Fresh, Event::Arrived) => Phase::Inserting(0),
        (Phase::Inserting(n), Event::Inserted(true)) => Phase::Writing(n),
        (Phase::Inserting(n), Event::Inserted(false)) => if n < policy.max_lookups {
            Phase::Rereading((n + 1) as u32)
        } else {
            Phase::Done
        },
        (Phase::Rereading(n), Event::FoundNothing) => Phase::Inserting(n),
        (Phase::Rereading(n), Event::FoundPlaceholder) => if n < policy.max_lookups {
            Phase::Resting(n)
        } else {
            Phase::Done
        },
        (Phase::Rereading(_), Event::FoundSaved(_)) => Phase::Done,
        (Phase::Resting(n), Event::Rested) => if n < policy.max_lookups {
            Phase::Rereading((n + 1) as u32)
        } else {
            Phase::Done
        },
        (Phase::Writing(n), Event::Written) => Phase::Saving(n),
        (Phase::Saving(_), Event::Committed) => Phase::Done,
        _ => Phase::Done,
    }
}

/// The kinds of command, without what they carry.
#[derive(Clone, Copy, Debug, PartialEq, Eq, Structural)]
pub enum CommandKind {
    InsertPlaceholder,
    ReadSaved,
    Pause,
    WriteIssue,
    SaveAndCommit,
    Reply,
    Fail,
}

/// The kind of a command.
pub open spec fn kind_of(command: Command) -> CommandKind {
    match command {
        Command::InsertPlaceholder => CommandKind::InsertPlaceholder,
        Command::ReadSaved => CommandKind::ReadSaved,
        Command::Pause(_) => CommandKind::Pause,
        Command::WriteIssue => CommandKind::WriteIssue,
        Command::SaveAndCommit(_) => CommandKind::SaveAndCommit,
        Command::Reply(_) => CommandKind::Reply,
        Command::Fail => CommandKind::Fail,
    }
}

/// The kind of command that `phase` gives on `event`.
pub open spec fn next_command(policy: LookupPolicy, phase: Phase, event: Event) -> CommandKind {
    match (phase, event) {
        (Phase::Fresh, Event::Arrived) => CommandKind::InsertPlaceholder,
        (Phase::Inserting(_), Event::Inserted(true)) => CommandKind::WriteIssue,
        (Phase::Inserting(n), Event::Inserted(false)) => if n < policy.max_lookups {
            CommandKind::ReadSaved
        } else {
            CommandKind::Fail
        },
        (Phase::Rereading(_), Event::FoundNothing) => CommandKind::InsertPlaceholder,
        (Phase::Rereading(n), Event::FoundPlaceholder) => if n < policy.max_lookups {
            CommandKind::Pause
        } else {
            CommandKind::Fail
        },
        (Phase::Rereading(_), Event::FoundSaved(_)) => CommandKind::Reply,
        (Phase::Resting(n), Event::Rested) => if n < policy.max_lookups {
            CommandKind::ReadSaved
        } else {
            CommandKind::Fail
        },
        (Phase::Writing(_), Event::Written) => CommandKind::SaveAndCommit,
        (Phase::Saving(_), Event::Committed) => CommandKind::Reply,
        _ => CommandKind::Fail,
    }
}

/// Takes the request one step further. The next phase and the kind of the
/// command are those of `next_phase` and `next_command`. A pause lasts as
/// long as the policy says. The response that is saved, and the one that is
/// replied after the commit, is the acknowledgement; the one that is
/// replied after a reread is the response that was found. An event that the
/// phase does not wait for ends the request with a failure.
pub fn advance(policy: LookupPolicy, phase: Phase, event: Event) -> (step: (Phase, Command))
    ensures
        step.0 == next_phase(policy, phase, event),
        kind_of(step.1) == next_command(policy, phase, event),
        step.1 is Pause ==> step.1->Pause_0 == policy.pause_ms,
        step.1 is SaveAndCommit ==> step.1->SaveAndCommit_0@ == accepted_response(),
        step.1 is Reply ==> step.1->Reply_0@ == match event {
            Event::FoundSaved(found) => found@,
            _ => accepted_response(),
        },
{
    match (phase, event) {
        (Phase::Fresh, Event::Arrived) => (Phase::Inserting(0), Command::InsertPlaceholder),
        (Phase::Inserting(n), Event::Inserted(true)) => (Phase::Writing(n), Command::WriteIssue),
        (Phase::Inserting(n), Event::Inserted(false)) => {
            if n < policy.max_lookups {
                (Phase::Rereading(n + 1), Command::ReadSaved)
            } else {
                (Phase::Done, Command::Fail)
            }
        },
        (Phase::Rereading(n), Event::FoundNothing) => (
            Phase::Inserting(n),
            Command::InsertPlaceholder,
        ),
        (Phase::Rereading(n), Event::FoundPlaceholder) => {
            if n < policy.max_lookups {
                (Phase::Resting(n), Command::Pause(policy.pause_ms))
            } else {
                (Phase::Done, Command::Fail)
            }
        },
        (Phase::Rereading(_), Event::FoundSaved(found)) => (Phase::Done, Command::Reply(found)),
        (Phase::Resting(n), Event::Rested) => {
            if n < policy.max_lookups {
                (Phase::Rereading(n + 1), Command::ReadSaved)
            } else {
                (Phase::Done, Command::Fail)
            }
        },
        (Phase::Writing(n), Event::Written) => (
            Phase::Saving(n),
            Command::SaveAndCommit(SavedResponse::see_other("/admin/newsletters")),
        ),
        (Phase::Saving(_), Event::Committed) => (
            Phase::Done,
            Command::Reply(SavedResponse::see_other("/admin/newsletters")),
        ),
        _ => (Phase::Done, Command::Fail),
    }
}

/// The number of rereads that a phase has behind it.
pub open spec fn lookups_of(phase: Phase) -> int {
    match phase {
        Phase::Inserting(n) => n as int,
        Phase::Rereading(n) => n as int,
        Phase::Resting(n) => n as int,
        Phase::Writing(n) => n as int,
        Phase::Saving(n) => n as int,
        _ => 0,
    }
}

/// Whether a phase respects the bound on rereads. A request only rests
/// when a reread is left.
pub open spec fn within_bound(policy: LookupPolicy, phase: Phase) -> bool {
    match phase {
        Phase::Resting(n) => n < policy.max_lookups,
        _ => lookups_of(phase) <= policy.max_lookups,
    }
}

/// Bounded rereads. A request that respects the bound respects it after
/// every step. Each command to reread counts one reread more, and no other
/// step changes the count of a request that goes on. So no request rereads
/// more often than the policy allows, whatever the store reports: a request
/// that keeps meeting a placeholder ends with a failure.
pub proof fn lemma_lookups_bounded(policy: LookupPolicy, phase: Phase, event: Event)
    requires
        within_bound(policy, phase),
    ensures
        within_bound(policy, next_phase(policy, phase, event)),
        next_command(policy, phase, event) == CommandKind::ReadSaved ==> lookups_of(
            next_phase(policy, phase, event),
        ) == lookups_of(phase) + 1,
        next_command(policy, phase, event) != CommandKind::ReadSaved && next_phase(
            policy,
            phase,
            event,
        ) != Phase::Done ==> lookups_of(next_phase(policy, phase, event)) == lookups_of(phase),
        phase is Rereading && event is FoundPlaceholder && lookups_of(phase) >= policy.max_lookups
            ==> next_command(policy, phase, event) == CommandKind::Fail,
{
}

} // verus!
