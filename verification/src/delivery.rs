//! The delivery queue: one task per issue and recipient, claimed by one
//! worker at a time, retired after a final outcome or sent back for another
//! attempt.

use vstd::prelude::*;

verus! {

/// What identifies a task: the issue and the recipient's address.
pub type TaskKey = (u128, Seq<char>);

/// What the queue records for a task.
#[derive(Clone, Copy, Debug, PartialEq, Eq, Structural)]
pub struct TaskState {
    /// Send attempts that failed so far.
    pub attempts: u32,
    /// Whether a worker holds the task.
    pub held: bool,
}

/// The queue as a map from task to its state.
pub type QueueModel = Map<TaskKey, TaskState>;

/// How a send attempt ended.
#[derive(Clone, Copy, Debug, PartialEq, Eq, Structural)]
pub enum SendOutcome {
    /// The message was handed over.
    Delivered,
    /// The transport failed in a way that may pass: an error or a timeout.
    Recoverable,
    /// The recipient cannot be written to at all: a malformed address.
    Permanent,
}

/// What becomes of a task after a send attempt.
#[derive(Clone, Copy, Debug, PartialEq, Eq, Structural)]
pub enum TaskFate {
    /// Removed: the message went out.
    Delivered,
    /// Removed: the recipient is skipped for this issue.
    Skipped,
    /// Removed: the last permitted attempt failed.
    Exhausted,
    /// Kept for another attempt, with one more failure counted.
    Requeued,
}

/// How often a send is tried and how long an idle worker rests.
#[derive(Clone, Copy, Debug)]
pub struct RetryPolicy {
    max_attempts: u32,
    idle_pause_ms: u64,
}

impl RetryPolicy {
    #[verifier::type_invariant]
    closed spec fn well_formed(&self) -> bool {
        self.max_attempts >= 1
    }

    /// The number of attempts after which a task is given up.
    pub closed spec fn spec_max_attempts(&self) -> u32 {
        self.max_attempts
    }

    /// The pause of a worker that found no task, in milliseconds.
    pub closed spec fn spec_idle_pause_ms(&self) -> u64 {
        self.idle_pause_ms
    }

    /// A policy with the given bound and pause. A bound of zero is refused:
    /// every task is tried at least once.
    pub fn new(max_attempts: u32, idle_pause_ms: u64) -> (policy: Option<RetryPolicy>)
        ensures
            policy is Some <==> max_attempts >= 1,
            policy is Some ==> policy->0.spec_max_attempts() == max_attempts
                && policy->0.spec_idle_pause_ms() == idle_pause_ms,
    {
        if max_attempts == 0 {
            None
        } else {
            Some(RetryPolicy { max_attempts, idle_pause_ms })
        }
    }

    /// Three attempts, and a pause of fifty milliseconds.
    pub fn standard() -> (policy: RetryPolicy)
        ensures
            policy.spec_max_attempts() == 3,
            policy.spec_idle_pause_ms() == 50,
    {
        RetryPolicy { max_attempts: 3, idle_pause_ms: 50 }
    }

    #[verifier::when_used_as_spec(spec_max_attempts)]
    pub fn max_attempts(&self) -> (bound: u32)
        ensures
            bound == self.spec_max_attempts(),
            bound >= 1,
    {
        proof {
            use_type_invariant(self);
        }
        self.max_attempts
    }

    #[verifier::when_used_as_spec(spec_idle_pause_ms)]
    pub fn idle_pause_ms(&self) -> (pause: u64)
        ensures
            pause == self.spec_idle_pause_ms(),
    {
        self.idle_pause_ms
    }
}

/// The fate of a task that had failed `attempts_before` times when the
/// attempt with `outcome` was made, under a bound of `max_attempts`.
pub open spec fn fate_of(attempts_before: u32, max_attempts: u32, outcome: SendOutcome) -> TaskFate {
    match outcome {
        SendOutcome::Delivered => TaskFate::Delivered,
        SendOutcome::Permanent => TaskFate::Skipped,
        SendOutcome::Recoverable => if attempts_before + 1 >= max_attempts {
            TaskFate::Exhausted
        } else {
            TaskFate::Requeued
        },
    }
}

/// Decides what becomes of a task after a send attempt.
pub fn decide(attempts_before: u32, policy: &RetryPolicy, outcome: SendOutcome) -> (fate: TaskFate)
    ensures
        fate == fate_of(attempts_before, policy.max_attempts(), outcome),
{
    match outcome {
        SendOutcome::Delivered => TaskFate::Delivered,
        SendOutcome::Permanent => TaskFate::Skipped,
        SendOutcome::Recoverable => {
            if attempts_before >= policy.max_attempts() - 1 {
                TaskFate::Exhausted
            } else {
                TaskFate::Requeued
            }
        },
    }
}

/// A task that waits for its first attempt.
pub open spec fn fresh_task() -> TaskState {
    TaskState { attempts: 0, held: false }
}

/// Whether a worker may claim `key`: the task exists and nobody holds it.
pub open spec fn claimable(queue: QueueModel, key: TaskKey) -> bool {
    queue.dom().contains(key) && !queue[key].held
}

/// The queue after a worker claimed `key`.
pub open spec fn claimed(queue: QueueModel, key: TaskKey) -> QueueModel {
    queue.insert(key, TaskState { attempts: queue[key].attempts, held: true })
}

/// The queue after the holder of `key` gave the task back untouched.
pub open spec fn unclaimed(queue: QueueModel, key: TaskKey) -> QueueModel {
    queue.insert(key, TaskState { attempts: queue[key].attempts, held: false })
}

/// The queue after the attempt on the held task `key` ended with `outcome`.
pub open spec fn settled(
    queue: QueueModel,
    key: TaskKey,
    max_attempts: u32,
    outcome: SendOutcome,
) -> QueueModel {
    match fate_of(queue[key].attempts, max_attempts, outcome) {
        TaskFate::Requeued => queue.insert(
            key,
            TaskState { attempts: (queue[key].attempts + 1) as u32, held: false },
        ),
        _ => queue.remove(key),
    }
}

/// The queue after one task for `issue_id` was added for each of
/// `recipients` that had none. Tasks that exist are left as they are.
pub open spec fn enqueued(queue: QueueModel, issue_id: u128, recipients: Seq<Seq<char>>) -> QueueModel {
    Map::new(
        |key: TaskKey| queue.dom().contains(key) || (key.0 == issue_id && recipients.contains(key.1)),
        |key: TaskKey|
            if queue.dom().contains(key) {
                queue[key]
            } else {
                fresh_task()
            },
    )
}

/// The queue after `rounds` rounds in each of which a worker claims `key`,
/// if the task is still there, and the send fails in a recoverable way.
pub open spec fn after_failures(
    queue: QueueModel,
    key: TaskKey,
    max_attempts: u32,
    rounds: nat,
) -> QueueModel
    decreases rounds,
{
    if rounds == 0 {
        queue
    } else {
        let before = after_failures(queue, key, max_attempts, (rounds - 1) as nat);
        if claimable(before, key) {
            settled(claimed(before, key), key, max_attempts, SendOutcome::Recoverable)
        } else {
            before
        }
    }
}

/// Retry bound. Under a bound of at least one attempt, as every policy
/// has, a waiting task whose every send fails in a recoverable way is still
/// waiting, with each failure counted, before each of the first
/// `max_attempts` rounds, so that it is attempted in each of them; after
/// round `max_attempts` it is gone, and no later round finds it.
pub proof fn lemma_retry_bound(queue: QueueModel, key: TaskKey, max_attempts: u32, rounds: nat)
    requires
        max_attempts >= 1,
        queue.dom().contains(key),
        queue[key] == fresh_task(),
    ensures
        rounds < max_attempts ==> claimable(after_failures(queue, key, max_attempts, rounds), key)
            && after_failures(queue, key, max_attempts, rounds)[key].attempts == rounds,
        rounds >= max_attempts ==> after_failures(queue, key, max_attempts, rounds)
            == queue.remove(key),
    decreases rounds,
{
    let max = max_attempts;
    if rounds > 0 {
        let earlier = (rounds - 1) as nat;
        lemma_retry_bound(queue, key, max, earlier);
        let before = after_failures(queue, key, max, earlier);
        if earlier < max {
            let held = claimed(before, key);
            assert(held[key].attempts == earlier);
            if rounds >= max {
                assert(fate_of(held[key].attempts, max, SendOutcome::Recoverable)
                    == TaskFate::Exhausted);
                lemma_same_elsewhere(queue, key, max, earlier);
                assert(held.remove(key) =~= before.remove(key));
            } else {
                assert(fate_of(held[key].attempts, max, SendOutcome::Recoverable)
                    == TaskFate::Requeued);
            }
        }
    }
}

/// Rounds of failures on `key` change nothing about any other task.
pub proof fn lemma_same_elsewhere(queue: QueueModel, key: TaskKey, max_attempts: u32, rounds: nat)
    ensures
        after_failures(queue, key, max_attempts, rounds).remove(key) == queue.remove(key),
    decreases rounds,
{
    if rounds > 0 {
        let earlier = (rounds - 1) as nat;
        lemma_same_elsewhere(queue, key, max_attempts, earlier);
        let before = after_failures(queue, key, max_attempts, earlier);
        let after = after_failures(queue, key, max_attempts, rounds);
        assert(after.remove(key) =~= before.remove(key));
    }
}

/// Isolation. Whatever happens to one task (a claim, the end of an attempt
/// with any outcome, a claim given back) leaves every other task in the
/// queue, with its state unchanged.
pub proof fn lemma_isolation(
    queue: QueueModel,
    key: TaskKey,
    other: TaskKey,
    max_attempts: u32,
    outcome: SendOutcome,
)
    requires
        other != key,
    ensures
        claimed(queue, key).dom().contains(other) == queue.dom().contains(other),
        settled(queue, key, max_attempts, outcome).dom().contains(other) == queue.dom().contains(
            other,
        ),
        unclaimed(queue, key).dom().contains(other) == queue.dom().contains(other),
        queue.dom().contains(other) ==> claimed(queue, key)[other] == queue[other] && settled(
            queue,
            key,
            max_attempts,
            outcome,
        )[other] == queue[other] && unclaimed(queue, key)[other] == queue[other],
        claimable(queue, other) ==> claimable(claimed(queue, key), other) && claimable(
            settled(queue, key, max_attempts, outcome),
            other,
        ) && claimable(unclaimed(queue, key), other),
{
}

/// No double send. Once a worker has claimed a task, no second claim of it
/// is possible until the first worker settles it or gives it back: a task
/// that can be claimed after `first` was claimed is another task.
pub proof fn lemma_exclusive_claim(queue: QueueModel, first: TaskKey, second: TaskKey)
    requires
        claimable(queue, first),
        claimable(claimed(queue, first), second),
    ensures
        first != second,
        claimable(queue, second),
{
}

/// A task that a worker settled with a final outcome cannot be claimed
/// again: after a delivery, a skip or the last failure it is gone.
pub proof fn lemma_retired_is_gone(
    queue: QueueModel,
    key: TaskKey,
    max_attempts: u32,
    outcome: SendOutcome,
)
    requires
        fate_of(queue[key].attempts, max_attempts, outcome) != TaskFate::Requeued,
    ensures
        !settled(queue, key, max_attempts, outcome).dom().contains(key),
        !claimable(settled(queue, key, max_attempts, outcome), key),
{
}

/// When none of `recipients` occurs twice and none has a task for
/// `issue_id` yet, the queue grows by one task for each of them.
pub proof fn lemma_enqueued_size(queue: QueueModel, issue_id: u128, recipients: Seq<Seq<char>>)
    requires
        queue.dom().finite(),
        recipients.no_duplicates(),
        forall|i: int|
            0 <= i < recipients.len() ==> !queue.dom().contains((issue_id, #[trigger] recipients[i])),
    ensures
        enqueued(queue, issue_id, recipients).dom().finite(),
        enqueued(queue, issue_id, recipients).dom().len() == queue.dom().len() + recipients.len(),
    decreases recipients.len(),
{
    if recipients.len() == 0 {
        assert(enqueued(queue, issue_id, recipients).dom() =~= queue.dom());
    } else {
        let front = recipients.drop_last();
        let last = recipients.last();
        lemma_enqueued_size(queue, issue_id, front);
        assert(!front.contains(last)) by {
            if front.contains(last) {
                let k = choose|k: int| 0 <= k < front.len() && front[k] == last;
                assert(recipients[k] == recipients[recipients.len() - 1]);
            }
        }
        assert(recipients[recipients.len() - 1] == last);
        assert forall|text: Seq<char>| recipients.contains(text) <==> (front.contains(text) || text
            == last) by {
            if front.contains(text) {
                let k = choose|k: int| 0 <= k < front.len() && front[k] == text;
                assert(recipients[k] == text);
            }
            if recipients.contains(text) {
                let k = choose|k: int| 0 <= k < recipients.len() && recipients[k] == text;
                if k < front.len() {
                    assert(front[k] == text);
                }
            }
        }
        assert(enqueued(queue, issue_id, recipients).dom() =~= enqueued(
            queue,
            issue_id,
            front,
        ).dom().insert((issue_id, last)));
    }
}

/// The queue after workers claimed the tasks `keys` one after the other,
/// none of them settled yet.
pub open spec fn after_claims(queue: QueueModel, keys: Seq<TaskKey>) -> QueueModel
    decreases keys.len(),
{
    if keys.len() == 0 {
        queue
    } else {
        claimed(after_claims(queue, keys.drop_last()), keys.last())
    }
}

/// No double send, for any number of workers. When any number of cycles
/// claim tasks one after the other before any of them settles, and each
/// claim was possible at its turn, then no task was claimed twice: each
/// cycle holds a task of its own.
pub proof fn lemma_claims_are_distinct(queue: QueueModel, keys: Seq<TaskKey>)
    requires
        forall|i: int|
            0 <= i < keys.len() ==> claimable(
                after_claims(queue, #[trigger] keys.take(i)),
                keys[i],
            ),
    ensures
        keys.no_duplicates(),
        forall|i: int|
            0 <= i < keys.len() ==> after_claims(queue, keys).dom().contains(#[trigger] keys[i])
                && after_claims(queue, keys)[keys[i]].held,
    decreases keys.len(),
{
    if keys.len() > 0 {
        let front = keys.drop_last();
        let last = keys.last();
        assert forall|i: int| 0 <= i < front.len() implies claimable(
            after_claims(queue, #[trigger] front.take(i)),
            front[i],
        ) by {
            assert(front.take(i) =~= keys.take(i));
        }
        lemma_claims_are_distinct(queue, front);
        assert(keys.take(keys.len() - 1) =~= front);
        assert(claimable(after_claims(queue, front), last));
        assert forall|i: int, j: int| 0 <= i < keys.len() && 0 <= j < keys.len() && i != j implies keys[i]
            != keys[j] by {
            if i < front.len() {
                assert(front[i] == keys[i]);
            }
            if j < front.len() {
                assert(front[j] == keys[j]);
            }
        }
        assert forall|i: int| 0 <= i < keys.len() implies after_claims(queue, keys).dom().contains(
            #[trigger] keys[i],
        ) && after_claims(queue, keys)[keys[i]].held by {
            if i < front.len() {
                assert(front[i] == keys[i]);
            }
        }
    }
}

} // verus!
