//! Publishing an issue: the ledger row, the issue and its delivery tasks are
//! written as one unit, and a repeated request is answered from the ledger.

use crate::delivery::{enqueued, lemma_enqueued_size, QueueModel, TaskKey};
use crate::idempotency::IdempotencyKey;
use crate::issues::{Archive, ArchiveModel, IssueModel, NewsletterIssue};
use crate::ledger::{state_of, Ledger, LedgerModel, NextAction, RowState};
use crate::outbox::Outbox;
use crate::response::{see_other_model, ResponseModel, SavedResponse};
use crate::text::texts;
use vstd::prelude::*;
use vstd::string::StringSliceAdditionalSpecFns;

verus! {

/// The three tables together.
#[derive(Debug)]
pub struct Store {
    pub ledger: Ledger,
    pub archive: Archive,
    pub outbox: Outbox,
}

/// The three tables as maps.
pub struct StoreModel {
    pub ledger: LedgerModel,
    pub issues: ArchiveModel,
    pub queue: QueueModel,
}

impl View for Store {
    type V = StoreModel;

    open spec fn view(&self) -> StoreModel {
        StoreModel { ledger: self.ledger@, issues: self.archive@, queue: self.outbox@ }
    }
}

/// Why a publish request did not go through.
#[derive(Clone, Copy, Debug, PartialEq, Eq, Structural)]
pub enum PublishError {
    /// Another request with the same key is at work; nothing was written.
    Busy,
    /// The issue could not be stored because its identifier is taken; the
    /// request was rolled back.
    IdentifierTaken,
    /// The request never began, or has ended already.
    NotBegun,
}

/// Where the acknowledgement of a publish request sends the client.
pub open spec fn accepted_location() -> &'static str {
    "/admin/newsletters"
}

/// The acknowledgement of a publish request.
pub open spec fn accepted_response() -> ResponseModel {
    see_other_model(accepted_location().spec_bytes())
}

/// The store after a request of `user_id` with `key` has begun: a
/// placeholder stands in the ledger unless a row was there.
pub open spec fn begun(store: StoreModel, user_id: u128, key: Seq<char>) -> StoreModel {
    if store.ledger.dom().contains((user_id, key)) {
        store
    } else {
        StoreModel { ledger: store.ledger.insert((user_id, key), None), ..store }
    }
}

/// The store after the request of `user_id` with `key` stored `issue` under
/// `issue_id`, queued a task for each of `recipients` and saved the
/// acknowledgement.
pub open spec fn finished(
    store: StoreModel,
    user_id: u128,
    key: Seq<char>,
    issue_id: u128,
    issue: IssueModel,
    recipients: Seq<Seq<char>>,
) -> StoreModel {
    StoreModel {
        ledger: store.ledger.insert((user_id, key), Some(accepted_response())),
        issues: store.issues.insert(issue_id, issue),
        queue: enqueued(store.queue, issue_id, recipients),
    }
}

/// The store after the request of `user_id` with `key` was rolled back.
pub open spec fn rolled_back(store: StoreModel, user_id: u128, key: Seq<char>) -> StoreModel {
    StoreModel { ledger: store.ledger.remove((user_id, key)), ..store }
}

/// What the end of a request makes of the store and what it answers:
/// without a placeholder nothing and a refusal; with a placeholder and a
/// taken identifier the rollback; otherwise the finished store and the
/// acknowledgement.
pub open spec fn finish_spec(
    store: StoreModel,
    user_id: u128,
    key: Seq<char>,
    issue_id: u128,
    issue: IssueModel,
    recipients: Seq<Seq<char>>,
) -> (StoreModel, Result<ResponseModel, PublishError>) {
    if !(state_of(store.ledger, user_id, key) is InFlight) {
        (store, Err(PublishError::NotBegun))
    } else if store.issues.dom().contains(issue_id) {
        (rolled_back(store, user_id, key), Err(PublishError::IdentifierTaken))
    } else {
        (finished(store, user_id, key, issue_id, issue, recipients), Ok(accepted_response()))
    }
}

/// What a publish request makes of the store and what it answers.
pub open spec fn publish_spec(
    store: StoreModel,
    user_id: u128,
    key: Seq<char>,
    issue_id: u128,
    issue: IssueModel,
    recipients: Seq<Seq<char>>,
) -> (StoreModel, Result<ResponseModel, PublishError>) {
    match state_of(store.ledger, user_id, key) {
        RowState::Saved(response) => (store, Ok(response)),
        RowState::InFlight => (store, Err(PublishError::Busy)),
        RowState::Absent => if store.issues.dom().contains(issue_id) {
            (store, Err(PublishError::IdentifierTaken))
        } else {
            (finished(store, user_id, key, issue_id, issue, recipients), Ok(accepted_response()))
        },
    }
}

/// The mathematical reading of an answer.
pub open spec fn answer_model(answer: Result<SavedResponse, PublishError>) -> Result<
    ResponseModel,
    PublishError,
> {
    match answer {
        Ok(response) => Ok(response@),
        Err(error) => Err(error),
    }
}

/// Every task belongs to an issue that is in the archive.
pub open spec fn references_hold(store: StoreModel) -> bool {
    forall|key: TaskKey| #[trigger] store.queue.dom().contains(key) ==> store.issues.dom().contains(key.0)
}

impl Store {
    /// Each table is well formed, and every task belongs to an archived
    /// issue.
    pub open spec fn wf(&self) -> bool {
        self.ledger.wf() && self.archive.wf() && self.outbox.wf() && references_hold(self@)
    }

    /// A store with three empty tables.
    pub fn new() -> (store: Store)
        ensures
            store.wf(),
            store@.ledger == Map::<(u128, Seq<char>), Option<ResponseModel>>::empty(),
            store@.issues == Map::<u128, IssueModel>::empty(),
            store@.queue == Map::<(u128, Seq<char>), crate::delivery::TaskState>::empty(),
    {
        Store { ledger: Ledger::new(), archive: Archive::new(), outbox: Outbox::new() }
    }

    /// Begins a request: writes the placeholder when no row exists and says
    /// what the caller has to do. Only the ledger is touched.
    pub fn begin(&mut self, user_id: u128, key: &IdempotencyKey) -> (next: NextAction)
        requires
            old(self).wf(),
        ensures
            final(self).wf(),
            final(self)@ == begun(old(self)@, user_id, key@),
            match state_of(old(self)@.ledger, user_id, key@) {
                RowState::Absent => next is StartProcessing,
                RowState::InFlight => next is RetryLater,
                RowState::Saved(response) => next is ReturnSavedResponse && next->0@ == response,
            },
    {
        let next = self.ledger.try_begin(user_id, key);
        assert(self@.queue == old(self)@.queue && self@.issues == old(self)@.issues);
        next
    }

    /// Ends a request that has begun: stores the issue, queues one task per
    /// recipient and saves the acknowledgement, all or nothing. When the
    /// issue's identifier is taken the request is rolled back and its
    /// placeholder removed. Without a placeholder nothing happens.
    pub fn finish(
        &mut self,
        user_id: u128,
        key: &IdempotencyKey,
        issue: NewsletterIssue,
        recipients: &Vec<String>,
    ) -> (answer: Result<SavedResponse, PublishError>)
        requires
            old(self).wf(),
        ensures
            final(self).wf(),
            (final(self)@, answer_model(answer)) == finish_spec(
                old(self)@,
                user_id,
                key@,
                issue.issue_id,
                issue@,
                texts(recipients@),
            ),
    {
        match self.ledger.lookup(user_id, key) {
            Some(None) => {},
            _ => {
                return Err(PublishError::NotBegun);
            },
        }
        let issue_id: u128 = issue.issue_id;
        if !self.archive.insert(issue) {
            let _ = self.ledger.release(user_id, key);
            assert(self@.queue == old(self)@.queue && self@.issues == old(self)@.issues);
            return Err(PublishError::IdentifierTaken);
        }
        let _ = self.outbox.enqueue(issue_id, recipients);
        let response = SavedResponse::see_other("/admin/newsletters");
        let _ = self.ledger.complete(user_id, key, response.duplicate());
        proof {
            assert forall|task: TaskKey| #[trigger]
                self@.queue.dom().contains(task) implies self@.issues.dom().contains(task.0) by {
                if old(self)@.queue.dom().contains(task) {
                    assert(old(self)@.issues.dom().contains(task.0));
                }
            }
        }
        Ok(response)
    }

    /// Takes back the placeholder of a request that has begun and cannot
    /// end. Says whether there was one.
    pub fn rollback(&mut self, user_id: u128, key: &IdempotencyKey) -> (undone: bool)
        requires
            old(self).wf(),
        ensures
            final(self).wf(),
            undone == (state_of(old(self)@.ledger, user_id, key@) is InFlight),
            undone ==> final(self)@ == rolled_back(old(self)@, user_id, key@),
            !undone ==> final(self)@ == old(self)@,
    {
        let undone = self.ledger.release(user_id, key);
        assert(self@.queue == old(self)@.queue && self@.issues == old(self)@.issues);
        undone
    }

    /// Handles one publish request from start to end. A request whose key
    /// has a saved response gets that response and writes nothing. A request
    /// whose key is in flight is turned away and writes nothing. Otherwise
    /// the issue, its tasks and the acknowledgement are written together,
    /// unless the issue's identifier is taken, in which case nothing is.
    pub fn publish_with(
        &mut self,
        user_id: u128,
        key: &IdempotencyKey,
        issue: NewsletterIssue,
        recipients: &Vec<String>,
    ) -> (answer: Result<SavedResponse, PublishError>)
        requires
            old(self).wf(),
        ensures
            final(self).wf(),
            (final(self)@, answer_model(answer)) == publish_spec(
                old(self)@,
                user_id,
                key@,
                issue.issue_id,
                issue@,
                texts(recipients@),
            ),
    {
        let ghost before = self@;
        match self.begin(user_id, key) {
            NextAction::ReturnSavedResponse(response) => Ok(response),
            NextAction::RetryLater => Err(PublishError::Busy),
            NextAction::StartProcessing => {
                let ghost id = issue.issue_id;
                let answer = self.finish(user_id, key, issue, recipients);
                proof {
                    let k = (user_id, key@);
                    if before.issues.dom().contains(id) {
                        assert(before.ledger.insert(k, None).remove(k) =~= before.ledger);
                    } else {
                        assert(before.ledger.insert(k, None).insert(k, Some(accepted_response()))
                            =~= before.ledger.insert(k, Some(accepted_response())));
                    }
                }
                answer
            },
        }
    }
}

/// What one submission of a request brings besides the principal and the
/// key: the issue with the identifier drawn for it, and the subscribers that
/// are confirmed at that moment.
pub struct Submission {
    pub issue_id: u128,
    pub issue: IssueModel,
    pub recipients: Seq<Seq<char>>,
}

/// The store after the submissions were handled one after the other.
pub open spec fn after_submissions(
    store: StoreModel,
    user_id: u128,
    key: Seq<char>,
    submissions: Seq<Submission>,
) -> StoreModel
    decreases submissions.len(),
{
    if submissions.len() == 0 {
        store
    } else {
        publish_spec(
            after_submissions(store, user_id, key, submissions.drop_last()),
            user_id,
            key,
            submissions.last().issue_id,
            submissions.last().issue,
            submissions.last().recipients,
        ).0
    }
}

/// The answer to submission number `at`, the earlier ones having been
/// handled.
pub open spec fn answer_at(
    store: StoreModel,
    user_id: u128,
    key: Seq<char>,
    submissions: Seq<Submission>,
    at: int,
) -> Result<ResponseModel, PublishError> {
    publish_spec(
        after_submissions(store, user_id, key, submissions.take(at)),
        user_id,
        key,
        submissions[at].issue_id,
        submissions[at].issue,
        submissions[at].recipients,
    ).1
}

/// Idempotence. When a principal submits a request with a new key any
/// number of times in a row, and the first submission goes through, the
/// store ends as the first submission left it: one issue more, the tasks of
/// that issue for the subscribers confirmed at the first submission, and the
/// saved acknowledgement. Every submission gets the same answer, whatever
/// identifier, contents or subscribers the later ones bring.
pub proof fn lemma_idempotent(
    store: StoreModel,
    user_id: u128,
    key: Seq<char>,
    submissions: Seq<Submission>,
    at: int,
)
    requires
        state_of(store.ledger, user_id, key) is Absent,
        0 <= at < submissions.len(),
        !store.issues.dom().contains(submissions[0].issue_id),
    ensures
        answer_at(store, user_id, key, submissions, at) == Ok::<ResponseModel, PublishError>(
            accepted_response(),
        ),
        after_submissions(store, user_id, key, submissions) == finished(
            store,
            user_id,
            key,
            submissions[0].issue_id,
            submissions[0].issue,
            submissions[0].recipients,
        ),
        after_submissions(store, user_id, key, submissions).issues == store.issues.insert(
            submissions[0].issue_id,
            submissions[0].issue,
        ),
        after_submissions(store, user_id, key, submissions).queue == enqueued(
            store.queue,
            submissions[0].issue_id,
            submissions[0].recipients,
        ),
{
    lemma_prefix(store, user_id, key, submissions, at);
    lemma_prefix(store, user_id, key, submissions, submissions.len() as int);
    assert(submissions.take(submissions.len() as int) =~= submissions);
}

/// After the first of the submissions, every prefix leaves the store as the
/// first one did.
proof fn lemma_prefix(
    store: StoreModel,
    user_id: u128,
    key: Seq<char>,
    submissions: Seq<Submission>,
    count: int,
)
    requires
        state_of(store.ledger, user_id, key) is Absent,
        0 <= count <= submissions.len(),
        submissions.len() >= 1,
        !store.issues.dom().contains(submissions[0].issue_id),
    ensures
        count == 0 ==> after_submissions(store, user_id, key, submissions.take(count)) == store,
        count >= 1 ==> after_submissions(store, user_id, key, submissions.take(count)) == finished(
            store,
            user_id,
            key,
            submissions[0].issue_id,
            submissions[0].issue,
            submissions[0].recipients,
        ),
    decreases count,
{
    let taken = submissions.take(count);
    if count >= 1 {
        lemma_prefix(store, user_id, key, submissions, count - 1);
        assert(taken.drop_last() =~= submissions.take(count - 1));
        assert(taken.last() == submissions[count - 1]);
    }
}

/// Concurrent duplicates. Of two requests of one principal with one new
/// key, the one that begins first does the work. While it is at work the
/// other is turned away, however often it asks, and writes nothing. Once the
/// first has ended, the other gets the very answer that the first got, and
/// writes nothing: the store holds one issue more, not two.
pub proof fn lemma_concurrent_duplicates(
    store: StoreModel,
    user_id: u128,
    key: Seq<char>,
    first: Submission,
    second: Submission,
)
    requires
        state_of(store.ledger, user_id, key) is Absent,
        !store.issues.dom().contains(first.issue_id),
    ensures
        ({
            let during = begun(store, user_id, key);
            let after = finished(
                during,
                user_id,
                key,
                first.issue_id,
                first.issue,
                first.recipients,
            );
            &&& state_of(during.ledger, user_id, key) is InFlight
            &&& begun(during, user_id, key) == during
            &&& publish_spec(
                during,
                user_id,
                key,
                second.issue_id,
                second.issue,
                second.recipients,
            ) == (during, Err::<ResponseModel, PublishError>(PublishError::Busy))
            &&& after == finished(
                store,
                user_id,
                key,
                first.issue_id,
                first.issue,
                first.recipients,
            )
            &&& begun(after, user_id, key) == after
            &&& publish_spec(
                after,
                user_id,
                key,
                second.issue_id,
                second.issue,
                second.recipients,
            ) == (after, Ok::<ResponseModel, PublishError>(accepted_response()))
            &&& after.issues == store.issues.insert(first.issue_id, first.issue)
        }),
{
    let k = (user_id, key);
    assert(store.ledger.insert(k, None).insert(k, Some(accepted_response()))
        =~= store.ledger.insert(k, Some(accepted_response())));
}

/// Requests with different keys, or of different principals, do not meet:
/// what one of them does to the ledger leaves the row of the other as it
/// was.
pub proof fn lemma_independent_keys(
    store: StoreModel,
    user_id: u128,
    key: Seq<char>,
    other_user: u128,
    other_key: Seq<char>,
    submission: Submission,
)
    requires
        (user_id, key) != (other_user, other_key),
    ensures
        state_of(begun(store, user_id, key).ledger, other_user, other_key) == state_of(
            store.ledger,
            other_user,
            other_key,
        ),
        state_of(rolled_back(store, user_id, key).ledger, other_user, other_key) == state_of(
            store.ledger,
            other_user,
            other_key,
        ),
        state_of(
            publish_spec(
                store,
                user_id,
                key,
                submission.issue_id,
                submission.issue,
                submission.recipients,
            ).0.ledger,
            other_user,
            other_key,
        ) == state_of(store.ledger, other_user, other_key),
{
}

/// Write once. A saved response stays as it is: no request, whatever key it
/// carries, and no begin changes the response that the ledger holds for a
/// principal and key.
pub proof fn lemma_saved_is_final(
    store: StoreModel,
    user_id: u128,
    key: Seq<char>,
    other_user: u128,
    other_key: Seq<char>,
    submission: Submission,
)
    requires
        state_of(store.ledger, user_id, key) is Saved,
    ensures
        state_of(begun(store, other_user, other_key).ledger, user_id, key) == state_of(
            store.ledger,
            user_id,
            key,
        ),
        state_of(
            publish_spec(
                store,
                other_user,
                other_key,
                submission.issue_id,
                submission.issue,
                submission.recipients,
            ).0.ledger,
            user_id,
            key,
        ) == state_of(store.ledger, user_id, key),
{
}

/// One task per subscriber. When the first submission brings each
/// confirmed subscriber once and the queue holds no task of the new issue,
/// then after any number of submissions the queue has grown by exactly as
/// many tasks as subscribers were confirmed at the first submission.
pub proof fn lemma_one_task_per_subscriber(
    store: StoreModel,
    user_id: u128,
    key: Seq<char>,
    submissions: Seq<Submission>,
)
    requires
        state_of(store.ledger, user_id, key) is Absent,
        submissions.len() >= 1,
        !store.issues.dom().contains(submissions[0].issue_id),
        store.queue.dom().finite(),
        submissions[0].recipients.no_duplicates(),
        forall|i: int|
            0 <= i < submissions[0].recipients.len() ==> !store.queue.dom().contains(
                (submissions[0].issue_id, #[trigger] submissions[0].recipients[i]),
            ),
    ensures
        after_submissions(store, user_id, key, submissions).queue.dom().finite(),
        after_submissions(store, user_id, key, submissions).queue.dom().len()
            == store.queue.dom().len() + submissions[0].recipients.len(),
{
    lemma_idempotent(store, user_id, key, submissions, 0);
    lemma_enqueued_size(store.queue, submissions[0].issue_id, submissions[0].recipients);
}

/// All or nothing. A request that goes through writes the issue, its tasks
/// and the acknowledgement together. One that does not writes none of them:
/// a whole request leaves the store as it was, and the end of a request
/// leaves the archive and the queue as they were and at most takes its own
/// placeholder back. So an issue without its tasks, or tasks without the
/// saved acknowledgement, never come to be.
pub proof fn lemma_all_or_nothing(
    store: StoreModel,
    user_id: u128,
    key: Seq<char>,
    submission: Submission,
)
    ensures
        ({
            let whole = publish_spec(
                store,
                user_id,
                key,
                submission.issue_id,
                submission.issue,
                submission.recipients,
            );
            let end = finish_spec(
                store,
                user_id,
                key,
                submission.issue_id,
                submission.issue,
                submission.recipients,
            );
            let done = finished(
                store,
                user_id,
                key,
                submission.issue_id,
                submission.issue,
                submission.recipients,
            );
            &&& whole.1 is Err ==> whole.0 == store
            &&& whole.1 is Ok ==> whole.0 == store || whole.0 == done
            &&& end.1 is Ok ==> end.0 == done
            &&& end.1 is Err ==> end.0.issues == store.issues && end.0.queue == store.queue && (
            end.0.ledger == store.ledger || end.0.ledger == store.ledger.remove((user_id, key)))
            &&& state_of(done.ledger, user_id, key) == RowState::Saved(accepted_response())
            &&& done.issues.dom().contains(submission.issue_id)
            &&& forall|i: int|
                0 <= i < submission.recipients.len() ==> done.queue.dom().contains(
                    (submission.issue_id, #[trigger] submission.recipients[i]),
                )
        }),
{
}

/// References are kept. When every task belongs to an archived issue, it
/// stays so through every begin, end, rollback and whole request.
pub proof fn lemma_references_kept(
    store: StoreModel,
    user_id: u128,
    key: Seq<char>,
    submission: Submission,
)
    requires
        references_hold(store),
    ensures
        references_hold(begun(store, user_id, key)),
        references_hold(rolled_back(store, user_id, key)),
        references_hold(
            finish_spec(
                store,
                user_id,
                key,
                submission.issue_id,
                submission.issue,
                submission.recipients,
            ).0,
        ),
        references_hold(
            publish_spec(
                store,
                user_id,
                key,
                submission.issue_id,
                submission.issue,
                submission.recipients,
            ).0,
        ),
{
    let done = finished(
        store,
        user_id,
        key,
        submission.issue_id,
        submission.issue,
        submission.recipients,
    );
    assert forall|task: TaskKey| #[trigger] done.queue.dom().contains(task) implies done.issues.dom().contains(
        task.0,
    ) by {
        if store.queue.dom().contains(task) {
            assert(store.issues.dom().contains(task.0));
        }
    }
}

} // verus!
