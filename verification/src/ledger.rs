//! The idempotency ledger: one row per principal and key, first a
//! placeholder, then the saved response.

use crate::idempotency::IdempotencyKey;
use crate::response::{ResponseModel, SavedResponse};
use crate::table::{
    as_map, has_key, keys_unique, lemma_domain, lemma_lookup, lemma_push, lemma_remove, lemma_size,
    lemma_update,
};
use vstd::prelude::*;

verus! {

/// What identifies a row: the principal and the key's text.
pub type LedgerKey = (u128, Seq<char>);

/// The ledger as a map: a row with `None` is a placeholder whose request is
/// still being processed, a row with `Some` holds the response to replay.
pub type LedgerModel = Map<LedgerKey, Option<ResponseModel>>;

/// What the ledger knows about one principal and key.
pub enum RowState {
    /// No request with this key has begun.
    Absent,
    /// A request holds the placeholder and has not finished.
    InFlight,
    /// A request finished and left this response.
    Saved(ResponseModel),
}

/// The state of the row of `user_id` and `key` in `ledger`.
pub open spec fn state_of(ledger: LedgerModel, user_id: u128, key: Seq<char>) -> RowState {
    if !ledger.dom().contains((user_id, key)) {
        RowState::Absent
    } else {
        match ledger[(user_id, key)] {
            None => RowState::InFlight,
            Some(response) => RowState::Saved(response),
        }
    }
}

/// What a request has to do after it asked the ledger to begin.
#[derive(Debug)]
pub enum NextAction {
    /// The placeholder was written: this request does the work.
    StartProcessing,
    /// An earlier request finished: answer with its response.
    ReturnSavedResponse(SavedResponse),
    /// Another request with the same key is at work: look again later.
    RetryLater,
}

/// Why the ledger refused to save a response.
#[derive(Clone, Copy, Debug, PartialEq, Eq, Structural)]
pub enum LedgerError {
    /// No placeholder exists for this principal and key.
    NotStarted,
    /// A response was saved before; it is never overwritten.
    AlreadySaved,
}

/// One row of the ledger.
#[derive(Debug)]
pub struct LedgerRow {
    user_id: u128,
    key: IdempotencyKey,
    response: Option<SavedResponse>,
}

impl LedgerRow {
    /// The row as a pair of key and value.
    spec fn model(&self) -> (LedgerKey, Option<ResponseModel>) {
        (
            (self.user_id, self.key@),
            match self.response {
                Some(response) => Some(response@),
                None => None,
            },
        )
    }
}

/// The ledger. A well-formed ledger has no principal and key in two rows.
#[derive(Debug)]
pub struct Ledger {
    rows: Vec<LedgerRow>,
}

impl View for Ledger {
    type V = LedgerModel;

    closed spec fn view(&self) -> LedgerModel {
        as_map(self.row_models())
    }
}

impl Ledger {
    /// The rows as pairs of key and value.
    spec fn row_models(&self) -> Seq<(LedgerKey, Option<ResponseModel>)> {
        Seq::new(self.rows@.len(), |i: int| self.rows@[i].model())
    }

    /// No principal and key occur in two rows.
    pub closed spec fn wf(&self) -> bool {
        keys_unique(self.row_models())
    }

    /// A ledger without rows.
    pub fn new() -> (ledger: Ledger)
        ensures
            ledger.wf(),
            ledger@ == Map::<LedgerKey, Option<ResponseModel>>::empty(),
    {
        let ledger = Ledger { rows: Vec::new() };
        assert(ledger.row_models() =~= Seq::empty());
        ledger
    }

    /// How many rows the ledger holds.
    pub fn len(&self) -> (count: usize)
        requires
            self.wf(),
        ensures
            count == self@.dom().len(),
            self@.dom().finite(),
    {
        proof {
            lemma_size(self.row_models());
        }
        self.rows.len()
    }

    fn position(&self, user_id: u128, key: &IdempotencyKey) -> (at: Option<usize>)
        ensures
            match at {
                Some(i) => i < self.rows@.len() && self.row_models()[i as int].0 == (
                    user_id,
                    key@,
                ),
                None => !has_key(self.row_models(), (user_id, key@)),
            },
    {
        let mut i: usize = 0;
        while i < self.rows.len()
            invariant
                i <= self.rows@.len(),
                forall|k: int| 0 <= k < i ==> (#[trigger] self.row_models()[k]).0 != (user_id, key@),
            decreases self.rows@.len() - i,
        {
            if self.rows[i].user_id == user_id && self.rows[i].key.same_as(key) {
                return Some(i);
            }
            i += 1;
        }
        None
    }

    /// Looks at the row of `user_id` and `key` without changing anything:
    /// `None` when it is absent, `Some(None)` when a request is in flight,
    /// and the saved response otherwise.
    pub fn lookup(&self, user_id: u128, key: &IdempotencyKey) -> (found: Option<
        Option<SavedResponse>,
    >)
        requires
            self.wf(),
        ensures
            match state_of(self@, user_id, key@) {
                RowState::Absent => found is None,
                RowState::InFlight => found == Some(None::<SavedResponse>),
                RowState::Saved(response) => found is Some && found->0 is Some
                    && found->0->0@ == response,
            },
    {
        proof {
            lemma_domain(self.row_models(), (user_id, key@));
        }
        match self.position(user_id, key) {
            None => None,
            Some(i) => {
                proof {
                    lemma_lookup(self.row_models(), i as int);
                }
                match &self.rows[i].response {
                    None => Some(None),
                    Some(response) => Some(Some(response.duplicate())),
                }
            },
        }
    }

    /// Begins a request. When no row exists, a placeholder is written and the
    /// caller is told to do the work. When a row exists nothing changes: the
    /// caller gets the saved response, or is told to look again while the
    /// other request is still in flight.
    pub fn try_begin(&mut self, user_id: u128, key: &IdempotencyKey) -> (next: NextAction)
        requires
            old(self).wf(),
        ensures
            final(self).wf(),
            match state_of(old(self)@, user_id, key@) {
                RowState::Absent => next is StartProcessing && final(self)@ == old(self)@.insert(
                    (user_id, key@),
                    None,
                ),
                RowState::InFlight => next is RetryLater && final(self)@ == old(self)@,
                RowState::Saved(response) => next is ReturnSavedResponse && next->0@ == response
                    && final(self)@ == old(self)@,
            },
    {
        proof {
            lemma_domain(self.row_models(), (user_id, key@));
        }
        match self.position(user_id, key) {
            Some(i) => {
                proof {
                    lemma_lookup(self.row_models(), i as int);
                }
                match &self.rows[i].response {
                    None => NextAction::RetryLater,
                    Some(response) => NextAction::ReturnSavedResponse(response.duplicate()),
                }
            },
            None => {
                let ghost before = self.row_models();
                self.rows.push(LedgerRow { user_id, key: key.duplicate(), response: None });
                proof {
                    lemma_push(before, (user_id, key@), None);
                    assert(self.row_models() =~= before.push(((user_id, key@), None)));
                }
                NextAction::StartProcessing
            },
        }
    }

    /// Fills the placeholder of `user_id` and `key` with `response`. A row
    /// that already holds a response is left as it is, and so is a ledger
    /// without a placeholder.
    pub fn complete(&mut self, user_id: u128, key: &IdempotencyKey, response: SavedResponse) -> (outcome:
        Result<(), LedgerError>)
        requires
            old(self).wf(),
        ensures
            final(self).wf(),
            match state_of(old(self)@, user_id, key@) {
                RowState::InFlight => outcome is Ok && final(self)@ == old(self)@.insert(
                    (user_id, key@),
                    Some(response@),
                ),
                RowState::Absent => outcome == Err::<(), LedgerError>(LedgerError::NotStarted)
                    && final(self)@ == old(self)@,
                RowState::Saved(_) => outcome == Err::<(), LedgerError>(LedgerError::AlreadySaved)
                    && final(self)@ == old(self)@,
            },
    {
        proof {
            lemma_domain(self.row_models(), (user_id, key@));
        }
        match self.position(user_id, key) {
            None => Err(LedgerError::NotStarted),
            Some(i) => {
                proof {
                    lemma_lookup(self.row_models(), i as int);
                }
                if self.rows[i].response.is_some() {
                    Err(LedgerError::AlreadySaved)
                } else {
                    let ghost before = self.row_models();
                    let ghost saved = response@;
                    self.rows.set(
                        i,
                        LedgerRow { user_id, key: key.duplicate(), response: Some(response) },
                    );
                    proof {
                        lemma_update(before, i as int, Some(saved));
                        assert(self.row_models() =~= before.update(
                            i as int,
                            (before[i as int].0, Some(saved)),
                        ));
                    }
                    Ok(())
                }
            },
        }
    }

    /// Takes back the placeholder of `user_id` and `key`, as a rollback does.
    /// A saved response is never removed.
    pub fn release(&mut self, user_id: u128, key: &IdempotencyKey) -> (released: bool)
        requires
            old(self).wf(),
        ensures
            final(self).wf(),
            released == (state_of(old(self)@, user_id, key@) is InFlight),
            released ==> final(self)@ == old(self)@.remove((user_id, key@)),
            !released ==> final(self)@ == old(self)@,
    {
        proof {
            lemma_domain(self.row_models(), (user_id, key@));
        }
        match self.position(user_id, key) {
            None => false,
            Some(i) => {
                proof {
                    lemma_lookup(self.row_models(), i as int);
                }
                if self.rows[i].response.is_some() {
                    false
                } else {
                    let ghost before = self.row_models();
                    let _ = self.rows.remove(i);
                    proof {
                        lemma_remove(before, i as int);
                        assert(self.row_models() =~= before.remove(i as int));
                    }
                    true
                }
            },
        }
    }
}

} // verus!
