//! The delivery queue as a data structure.

use crate::delivery::{
    claimable, claimed, decide, enqueued, fate_of, fresh_task, settled, unclaimed, QueueModel,
    RetryPolicy, SendOutcome, TaskFate, TaskKey, TaskState,
};
use crate::table::{
    as_map, has_key, keys_unique, lemma_domain, lemma_lookup, lemma_push, lemma_remove, lemma_size,
    lemma_update,
};
use crate::text::texts;
use vstd::prelude::*;

verus! {

/// One row of the queue.
#[derive(Debug)]
pub struct DeliveryTask {
    issue_id: u128,
    recipient: String,
    attempts: u32,
    held: bool,
}

impl DeliveryTask {
    /// The row as a pair of key and value.
    spec fn model(&self) -> (TaskKey, TaskState) {
        ((self.issue_id, self.recipient@), TaskState { attempts: self.attempts, held: self.held })
    }
}

/// A task in the hands of a worker.
#[derive(Debug)]
pub struct Claim {
    pub issue_id: u128,
    pub recipient: String,
    /// Attempts that failed before this one.
    pub attempts: u32,
}

impl Claim {
    /// The task that the claim is for.
    pub open spec fn key(&self) -> TaskKey {
        (self.issue_id, self.recipient@)
    }
}

/// The queue. A well-formed queue has no issue and recipient in two rows.
#[derive(Debug)]
pub struct Outbox {
    tasks: Vec<DeliveryTask>,
}

impl View for Outbox {
    type V = QueueModel;

    closed spec fn view(&self) -> QueueModel {
        as_map(self.row_models())
    }
}

impl Outbox {
    /// The rows as pairs of key and value.
    spec fn row_models(&self) -> Seq<(TaskKey, TaskState)> {
        Seq::new(self.tasks@.len(), |i: int| self.tasks@[i].model())
    }

    /// No issue and recipient occur in two rows.
    pub closed spec fn wf(&self) -> bool {
        keys_unique(self.row_models())
    }

    /// A queue without tasks.
    pub fn new() -> (queue: Outbox)
        ensures
            queue.wf(),
            queue@ == Map::<TaskKey, TaskState>::empty(),
    {
        let queue = Outbox { tasks: Vec::new() };
        assert(queue.row_models() =~= Seq::empty());
        queue
    }

    /// How many tasks the queue holds, held ones included.
    pub fn len(&self) -> (count: usize)
        requires
            self.wf(),
        ensures
            self@.dom().finite(),
            count == self@.dom().len(),
    {
        proof {
            lemma_size(self.row_models());
        }
        self.tasks.len()
    }

    fn position(&self, issue_id: u128, recipient: &String) -> (at: Option<usize>)
        ensures
            match at {
                Some(i) => i < self.tasks@.len() && self.row_models()[i as int].0 == (
                    issue_id,
                    recipient@,
                ),
                None => !has_key(self.row_models(), (issue_id, recipient@)),
            },
    {
        let mut i: usize = 0;
        while i < self.tasks.len()
            invariant
                i <= self.tasks@.len(),
                forall|k: int|
                    0 <= k < i ==> (#[trigger] self.row_models()[k]).0 != (issue_id, recipient@),
            decreases self.tasks@.len() - i,
        {
            if self.tasks[i].issue_id == issue_id && self.tasks[i].recipient == *recipient {
                return Some(i);
            }
            i += 1;
        }
        None
    }

    /// The state of the task of `issue_id` and `recipient`, if there is one:
    /// its failed attempts and whether a worker holds it.
    pub fn inspect(&self, issue_id: u128, recipient: &String) -> (found: Option<TaskState>)
        requires
            self.wf(),
        ensures
            found == if self@.dom().contains((issue_id, recipient@)) {
                Some(self@[(issue_id, recipient@)])
            } else {
                None
            },
    {
        proof {
            lemma_domain(self.row_models(), (issue_id, recipient@));
        }
        match self.position(issue_id, recipient) {
            None => None,
            Some(i) => {
                proof {
                    lemma_lookup(self.row_models(), i as int);
                }
                Some(TaskState { attempts: self.tasks[i].attempts, held: self.tasks[i].held })
            },
        }
    }

    /// Adds one waiting task for `issue_id` per recipient. A recipient that
    /// has a task for this issue, in the queue or earlier in `recipients`,
    /// gets no second one. Returns how many tasks were added.
    pub fn enqueue(&mut self, issue_id: u128, recipients: &Vec<String>) -> (added: usize)
        requires
            old(self).wf(),
        ensures
            final(self).wf(),
            final(self)@ == enqueued(old(self)@, issue_id, texts(recipients@)),
            final(self)@.dom().finite(),
            old(self)@.dom().finite(),
            added == final(self)@.dom().len() - old(self)@.dom().len(),
    {
        let ghost start = self@;
        let before: usize = self.len();
        let mut i: usize = 0;
        proof {
            assert(texts(recipients@).take(0) =~= Seq::empty());
            assert(enqueued(start, issue_id, Seq::empty()) =~= start);
        }
        while i < recipients.len()
            invariant
                i <= recipients@.len(),
                self.wf(),
                self@ == enqueued(start, issue_id, texts(recipients@).take(i as int)),
            decreases recipients@.len() - i,
        {
            let ghost seen = texts(recipients@).take(i as int);
            let ghost text = recipients@[i as int]@;
            proof {
                lemma_domain(self.row_models(), (issue_id, text));
                assert(texts(recipients@).take(i + 1) =~= seen.push(text));
                assert forall|t: Seq<char>| seen.push(text).contains(t) <==> (seen.contains(t) || t
                    == text) by {
                    if seen.contains(t) {
                        let k = choose|k: int| 0 <= k < seen.len() && seen[k] == t;
                        assert(seen.push(text)[k] == t);
                    }
                    if t == text {
                        assert(seen.push(text)[seen.len() as int] == t);
                    }
                    if seen.push(text).contains(t) {
                        let k = choose|k: int| 0 <= k < seen.push(text).len() && seen.push(text)[k]
                            == t;
                        if k < seen.len() {
                            assert(seen[k] == t);
                        }
                    }
                }
            }
            match self.position(issue_id, &recipients[i]) {
                Some(_) => {
                    proof {
                        assert(enqueued(start, issue_id, seen.push(text)) =~= enqueued(
                            start,
                            issue_id,
                            seen,
                        ));
                    }
                },
                None => {
                    let ghost rows = self.row_models();
                    self.tasks.push(
                        DeliveryTask {
                            issue_id,
                            recipient: recipients[i].clone(),
                            attempts: 0,
                            held: false,
                        },
                    );
                    proof {
                        lemma_push(rows, (issue_id, text), fresh_task());
                        assert(self.row_models() =~= rows.push(((issue_id, text), fresh_task())));
                        assert(enqueued(start, issue_id, seen.push(text)) =~= enqueued(
                            start,
                            issue_id,
                            seen,
                        ).insert((issue_id, text), fresh_task()));
                    }
                },
            }
            i += 1;
        }
        proof {
            assert(texts(recipients@).take(recipients@.len() as int) =~= texts(recipients@));
            lemma_size(self.row_models());
            assert(start.dom().subset_of(self@.dom()));
            vstd::set_lib::lemma_len_subset(start.dom(), self@.dom());
        }
        self.tasks.len() - before
    }

    /// Hands a task that nobody holds to the caller and marks it as held.
    /// Which of several such tasks is handed out is not fixed. `None` means
    /// that every task is held, or that the queue is empty.
    pub fn dequeue(&mut self) -> (claim: Option<Claim>)
        requires
            old(self).wf(),
        ensures
            final(self).wf(),
            match claim {
                None => final(self)@ == old(self)@ && forall|key: TaskKey|
                    !claimable(old(self)@, key),
                Some(c) => claimable(old(self)@, c.key()) && c.attempts == old(self)@[c.key()].attempts
                    && final(self)@ == claimed(old(self)@, c.key()),
            },
    {
        let mut i: usize = 0;
        while i < self.tasks.len()
            invariant
                i <= self.tasks@.len(),
                self.wf(),
                *self == *old(self),
                forall|k: int| 0 <= k < i ==> (#[trigger] self.row_models()[k]).1.held,
            decreases self.tasks@.len() - i,
        {
            if !self.tasks[i].held {
                let ghost rows = self.row_models();
                let issue_id: u128 = self.tasks[i].issue_id;
                let attempts: u32 = self.tasks[i].attempts;
                let recipient = self.tasks[i].recipient.clone();
                let claim = Claim { issue_id, recipient: recipient.clone(), attempts };
                proof {
                    lemma_lookup(rows, i as int);
                }
                self.tasks.set(i, DeliveryTask { issue_id, recipient, attempts, held: true });
                proof {
                    lemma_update(rows, i as int, TaskState { attempts, held: true });
                    assert(self.row_models() =~= rows.update(
                        i as int,
                        (rows[i as int].0, TaskState { attempts, held: true }),
                    ));
                }
                return Some(claim);
            }
            i += 1;
        }
        proof {
            let rows = self.row_models();
            assert forall|key: TaskKey| !claimable(self@, key) by {
                lemma_domain(rows, key);
                if self@.dom().contains(key) {
                    let k = choose|k: int| 0 <= k < rows.len() && (#[trigger] rows[k]).0 == key;
                    lemma_lookup(rows, k);
                }
            }
        }
        None
    }

    /// Records how the attempt on a held task ended. The task is removed
    /// after a delivery, a permanent failure or the last permitted failure,
    /// and goes back to waiting, with one more failure counted, otherwise.
    /// A task that is absent or not held is not touched: the answer is `None`.
    pub fn settle(
        &mut self,
        issue_id: u128,
        recipient: &String,
        outcome: SendOutcome,
        policy: &RetryPolicy,
    ) -> (fate: Option<TaskFate>)
        requires
            old(self).wf(),
        ensures
            final(self).wf(),
            ({
                let key = (issue_id, recipient@);
                let held = old(self)@.dom().contains(key) && old(self)@[key].held;
                &&& fate is Some <==> held
                &&& held ==> fate == Some(
                    fate_of(old(self)@[key].attempts, policy.max_attempts(), outcome),
                ) && final(self)@ == settled(old(self)@, key, policy.max_attempts(), outcome)
                &&& !held ==> final(self)@ == old(self)@
            }),
    {
        proof {
            lemma_domain(self.row_models(), (issue_id, recipient@));
        }
        match self.position(issue_id, recipient) {
            None => None,
            Some(i) => {
                let ghost rows = self.row_models();
                proof {
                    lemma_lookup(rows, i as int);
                }
                if !self.tasks[i].held {
                    return None;
                }
                let attempts: u32 = self.tasks[i].attempts;
                let fate = decide(attempts, policy, outcome);
                match fate {
                    TaskFate::Requeued => {
                        let next: u32 = attempts + 1;
                        self.tasks.set(
                            i,
                            DeliveryTask {
                                issue_id,
                                recipient: recipient.clone(),
                                attempts: next,
                                held: false,
                            },
                        );
                        proof {
                            lemma_update(rows, i as int, TaskState { attempts: next, held: false });
                            assert(self.row_models() =~= rows.update(
                                i as int,
                                (rows[i as int].0, TaskState { attempts: next, held: false }),
                            ));
                        }
                    },
                    _ => {
                        let _ = self.tasks.remove(i);
                        proof {
                            lemma_remove(rows, i as int);
                            assert(self.row_models() =~= rows.remove(i as int));
                        }
                    },
                }
                Some(fate)
            },
        }
    }

    /// Gives a held task back without counting an attempt, as the rollback
    /// of a worker's transaction does. Returns whether the task was held.
    pub fn abandon(&mut self, issue_id: u128, recipient: &String) -> (was_held: bool)
        requires
            old(self).wf(),
        ensures
            final(self).wf(),
            ({
                let key = (issue_id, recipient@);
                &&& was_held == (old(self)@.dom().contains(key) && old(self)@[key].held)
                &&& was_held ==> final(self)@ == unclaimed(old(self)@, key)
                &&& !was_held ==> final(self)@ == old(self)@
            }),
    {
        proof {
            lemma_domain(self.row_models(), (issue_id, recipient@));
        }
        match self.position(issue_id, recipient) {
            None => false,
            Some(i) => {
                let ghost rows = self.row_models();
                proof {
                    lemma_lookup(rows, i as int);
                }
                if !self.tasks[i].held {
                    return false;
                }
                let attempts: u32 = self.tasks[i].attempts;
                self.tasks.set(
                    i,
                    DeliveryTask { issue_id, recipient: recipient.clone(), attempts, held: false },
                );
                proof {
                    lemma_update(rows, i as int, TaskState { attempts, held: false });
                    assert(self.row_models() =~= rows.update(
                        i as int,
                        (rows[i as int].0, TaskState { attempts, held: false }),
                    ));
                }
                true
            },
        }
    }

    /// Removes a held task without a send, as is done for a task that can
    /// never be delivered. Returns whether the task was held; a task that is
    /// absent or not held is not touched.
    pub fn discard(&mut self, issue_id: u128, recipient: &String) -> (was_held: bool)
        requires
            old(self).wf(),
        ensures
            final(self).wf(),
            ({
                let key = (issue_id, recipient@);
                &&& was_held == (old(self)@.dom().contains(key) && old(self)@[key].held)
                &&& was_held ==> final(self)@ == old(self)@.remove(key)
                &&& !was_held ==> final(self)@ == old(self)@
            }),
    {
        proof {
            lemma_domain(self.row_models(), (issue_id, recipient@));
        }
        match self.position(issue_id, recipient) {
            None => false,
            Some(i) => {
                let ghost rows = self.row_models();
                proof {
                    lemma_lookup(rows, i as int);
                }
                if !self.tasks[i].held {
                    return false;
                }
                let _ = self.tasks.remove(i);
                proof {
                    lemma_remove(rows, i as int);
                    assert(self.row_models() =~= rows.remove(i as int));
                }
                true
            },
        }
    }
}

} // verus!
