//! The subscribers and their confirmation tokens.

use crate::domain::NewSubscriber;
use crate::table::{
    as_map, has_key, keys_unique, lemma_domain, lemma_lookup, lemma_push, lemma_size, lemma_update,
};
use crate::text::texts;
use vstd::prelude::*;

verus! {

/// Whether a subscriber has confirmed the subscription.
#[derive(Clone, Copy, Debug, PartialEq, Eq, Structural)]
pub enum SubscriptionStatus {
    PendingConfirmation,
    Confirmed,
}

impl SubscriptionStatus {
    /// The name of the status as the store writes it.
    pub fn as_str(&self) -> (name: &'static str)
        ensures
            name@ == match *self {
                SubscriptionStatus::PendingConfirmation => "pending_confirmation"@,
                SubscriptionStatus::Confirmed => "confirmed"@,
            },
    {
        match self {
            SubscriptionStatus::PendingConfirmation => "pending_confirmation",
            SubscriptionStatus::Confirmed => "confirmed",
        }
    }
}

/// One subscriber.
#[derive(Debug)]
pub struct Subscription {
    pub id: u128,
    pub email: String,
    pub name: String,
    /// Seconds since the epoch at which the subscription was asked for.
    pub subscribed_at: i64,
    pub status: SubscriptionStatus,
}

/// What is kept about a subscriber besides the identifier.
pub struct SubscriptionModel {
    pub email: Seq<char>,
    pub name: Seq<char>,
    pub subscribed_at: i64,
    pub status: SubscriptionStatus,
}

impl View for Subscription {
    type V = SubscriptionModel;

    open spec fn view(&self) -> SubscriptionModel {
        SubscriptionModel {
            email: self.email@,
            name: self.name@,
            subscribed_at: self.subscribed_at,
            status: self.status,
        }
    }
}

impl Subscription {
    /// A second record with the same contents.
    pub fn duplicate(&self) -> (copy: Subscription)
        ensures
            copy.id == self.id,
            copy@ == self@,
    {
        Subscription {
            id: self.id,
            email: self.email.clone(),
            name: self.name.clone(),
            subscribed_at: self.subscribed_at,
            status: self.status,
        }
    }
}

/// The two tables as maps: subscribers by identifier, and the subscriber
/// that each token belongs to.
pub struct SubscribersModel {
    pub rows: Map<u128, SubscriptionModel>,
    pub tokens: Map<Seq<char>, u128>,
}

/// Why a row was not written.
#[derive(Clone, Copy, Debug, PartialEq, Eq, Structural)]
pub enum RowError {
    /// A subscriber with this identifier exists.
    DuplicateId,
    /// A subscriber with this address exists.
    DuplicateEmail,
    /// The token is in use.
    DuplicateToken,
    /// No subscriber has this identifier.
    UnknownSubscriber,
}

impl RowError {
    /// The text that describes this error.
    pub open spec fn text(&self) -> Seq<char> {
        match *self {
            RowError::DuplicateId => "a subscriber with this identifier exists"@,
            RowError::DuplicateEmail => "a subscriber with this address exists"@,
            RowError::DuplicateToken => "the token is in use"@,
            RowError::UnknownSubscriber => "no subscriber has this identifier"@,
        }
    }

    /// The text that describes this error.
    pub fn message(&self) -> (text: String)
        ensures
            text@ == self.text(),
    {
        match self {
            RowError::DuplicateId => String::from_str("a subscriber with this identifier exists"),
            RowError::DuplicateEmail => String::from_str("a subscriber with this address exists"),
            RowError::DuplicateToken => String::from_str("the token is in use"),
            RowError::UnknownSubscriber => String::from_str("no subscriber has this identifier"),
        }
    }
}

/// Whether some subscriber has the address `email`.
pub open spec fn email_taken(rows: Map<u128, SubscriptionModel>, email: Seq<char>) -> bool {
    exists|id: u128| rows.dom().contains(id) && (#[trigger] rows[id]).email == email
}

/// A subscriber who has yet to confirm.
pub open spec fn pending(email: Seq<char>, name: Seq<char>, now: i64) -> SubscriptionModel {
    SubscriptionModel {
        email,
        name,
        subscribed_at: now,
        status: SubscriptionStatus::PendingConfirmation,
    }
}

/// Whether a subscriber can be written under `id` with the address `email`:
/// not when the identifier is taken, and not when the address is.
pub open spec fn insert_outcome(rows: Map<u128, SubscriptionModel>, id: u128, email: Seq<char>) -> Result<
    (),
    RowError,
> {
    if rows.dom().contains(id) {
        Err(RowError::DuplicateId)
    } else if email_taken(rows, email) {
        Err(RowError::DuplicateEmail)
    } else {
        Ok(())
    }
}

/// Whether `token` can be written for `subscriber_id`: not when there is no
/// such subscriber, and not when the token is in use.
pub open spec fn token_outcome(before: SubscribersModel, subscriber_id: u128, token: Seq<char>) -> Result<
    (),
    RowError,
> {
    if !before.rows.dom().contains(subscriber_id) {
        Err(RowError::UnknownSubscriber)
    } else if before.tokens.dom().contains(token) {
        Err(RowError::DuplicateToken)
    } else {
        Ok(())
    }
}

/// Whether some confirmed subscriber has the address `email`.
pub open spec fn is_confirmed_email(rows: Map<u128, SubscriptionModel>, email: Seq<char>) -> bool {
    exists|id: u128|
        rows.dom().contains(id) && (#[trigger] rows[id]).email == email && rows[id].status
            == SubscriptionStatus::Confirmed
}

/// The subscriber `id` with the status `Confirmed`, everything else as it
/// was; nothing changes when there is no such subscriber.
pub open spec fn confirmed(rows: Map<u128, SubscriptionModel>, id: u128) -> Map<
    u128,
    SubscriptionModel,
> {
    if rows.dom().contains(id) {
        rows.insert(id, SubscriptionModel { status: SubscriptionStatus::Confirmed, ..rows[id] })
    } else {
        rows
    }
}

/// A row of the token table.
#[derive(Debug)]
pub struct TokenRow {
    token: String,
    subscriber_id: u128,
}

/// The subscribers and their tokens. In a well-formed value no identifier,
/// no address and no token occurs twice.
#[derive(Debug)]
pub struct Subscribers {
    rows: Vec<Subscription>,
    tokens: Vec<TokenRow>,
}

spec fn emails_unique(rows: Seq<(u128, SubscriptionModel)>) -> bool {
    forall|i: int, j: int|
        0 <= i < rows.len() && 0 <= j < rows.len() && i != j ==> (#[trigger] rows[i]).1.email != (
        #[trigger] rows[j]).1.email
}

spec fn confirmed_before(rows: Seq<(u128, SubscriptionModel)>, end: int, email: Seq<char>) -> bool {
    exists|k: int|
        0 <= k < end && (#[trigger] rows[k]).1.email == email && rows[k].1.status
            == SubscriptionStatus::Confirmed
}

impl View for Subscribers {
    type V = SubscribersModel;

    closed spec fn view(&self) -> SubscribersModel {
        SubscribersModel { rows: as_map(self.row_models()), tokens: as_map(self.token_models()) }
    }
}

impl Subscribers {
    /// The subscribers as pairs of identifier and record.
    spec fn row_models(&self) -> Seq<(u128, SubscriptionModel)> {
        Seq::new(self.rows@.len(), |i: int| (self.rows@[i].id, self.rows@[i]@))
    }

    /// The tokens as pairs of token and subscriber.
    spec fn token_models(&self) -> Seq<(Seq<char>, u128)> {
        Seq::new(
            self.tokens@.len(),
            |i: int| (self.tokens@[i].token@, self.tokens@[i].subscriber_id),
        )
    }

    /// No identifier, no address and no token occurs twice.
    pub closed spec fn wf(&self) -> bool {
        &&& keys_unique(self.row_models())
        &&& keys_unique(self.token_models())
        &&& emails_unique(self.row_models())
    }

    /// Two empty tables.
    pub fn new() -> (subscribers: Subscribers)
        ensures
            subscribers.wf(),
            subscribers@.rows == Map::<u128, SubscriptionModel>::empty(),
            subscribers@.tokens == Map::<Seq<char>, u128>::empty(),
    {
        let subscribers = Subscribers { rows: Vec::new(), tokens: Vec::new() };
        assert(subscribers.row_models() =~= Seq::empty());
        assert(subscribers.token_models() =~= Seq::empty());
        subscribers
    }

    /// How many subscribers there are, confirmed or not.
    pub fn len(&self) -> (count: usize)
        requires
            self.wf(),
        ensures
            self@.rows.dom().finite(),
            count == self@.rows.dom().len(),
    {
        proof {
            lemma_size(self.row_models());
        }
        self.rows.len()
    }

    fn position(&self, id: u128) -> (at: Option<usize>)
        ensures
            match at {
                Some(i) => i < self.rows@.len() && self.row_models()[i as int].0 == id,
                None => !has_key(self.row_models(), id),
            },
    {
        let mut i: usize = 0;
        while i < self.rows.len()
            invariant
                i <= self.rows@.len(),
                forall|k: int| 0 <= k < i ==> (#[trigger] self.row_models()[k]).0 != id,
            decreases self.rows@.len() - i,
        {
            if self.rows[i].id == id {
                return Some(i);
            }
            i += 1;
        }
        None
    }

    fn position_of_email(&self, email: &str) -> (at: Option<usize>)
        ensures
            match at {
                Some(i) => i < self.rows@.len() && self.row_models()[i as int].1.email == email@,
                None => forall|k: int|
                    0 <= k < self.rows@.len() ==> (#[trigger] self.row_models()[k]).1.email
                        != email@,
            },
    {
        let wanted = String::from_str(email);
        let mut i: usize = 0;
        while i < self.rows.len()
            invariant
                i <= self.rows@.len(),
                wanted@ == email@,
                forall|k: int| 0 <= k < i ==> (#[trigger] self.row_models()[k]).1.email != email@,
            decreases self.rows@.len() - i,
        {
            if self.rows[i].email == wanted {
                return Some(i);
            }
            i += 1;
        }
        None
    }

    fn position_of_token(&self, token: &str) -> (at: Option<usize>)
        ensures
            match at {
                Some(i) => i < self.tokens@.len() && self.token_models()[i as int].0 == token@,
                None => !has_key(self.token_models(), token@),
            },
    {
        let wanted = String::from_str(token);
        let mut i: usize = 0;
        while i < self.tokens.len()
            invariant
                i <= self.tokens@.len(),
                wanted@ == token@,
                forall|k: int| 0 <= k < i ==> (#[trigger] self.token_models()[k]).0 != token@,
            decreases self.tokens@.len() - i,
        {
            if self.tokens[i].token == wanted {
                return Some(i);
            }
            i += 1;
        }
        None
    }

    proof fn lemma_email_search(&self, email: Seq<char>)
        requires
            self.wf(),
        ensures
            email_taken(self@.rows, email) <==> exists|k: int|
                0 <= k < self.row_models().len() && (#[trigger] self.row_models()[k]).1.email
                    == email,
    {
        let rows = self.row_models();
        if email_taken(self@.rows, email) {
            let id = choose|id: u128|
                self@.rows.dom().contains(id) && (#[trigger] self@.rows[id]).email == email;
            lemma_domain(rows, id);
            let k = choose|k: int| 0 <= k < rows.len() && (#[trigger] rows[k]).0 == id;
            lemma_lookup(rows, k);
            assert(rows[k].1.email == email);
        }
        if exists|k: int| 0 <= k < rows.len() && (#[trigger] rows[k]).1.email == email {
            let k = choose|k: int| 0 <= k < rows.len() && (#[trigger] rows[k]).1.email == email;
            lemma_lookup(rows, k);
            assert(self@.rows[rows[k].0].email == email);
        }
    }

    /// The subscriber with this identifier, if there is one.
    pub fn get(&self, id: u128) -> (found: Option<Subscription>)
        requires
            self.wf(),
        ensures
            found is Some <==> self@.rows.dom().contains(id),
            found is Some ==> found->0.id == id && found->0@ == self@.rows[id],
    {
        proof {
            lemma_domain(self.row_models(), id);
        }
        match self.position(id) {
            None => None,
            Some(i) => {
                proof {
                    lemma_lookup(self.row_models(), i as int);
                }
                Some(self.rows[i].duplicate())
            },
        }
    }

    /// The subscriber with this address, if there is one.
    pub fn find_by_email(&self, email: &str) -> (found: Option<Subscription>)
        requires
            self.wf(),
        ensures
            found is Some <==> email_taken(self@.rows, email@),
            found is Some ==> self@.rows.dom().contains(found->0.id) && found->0@
                == self@.rows[found->0.id] && found->0.email@ == email@,
    {
        proof {
            self.lemma_email_search(email@);
        }
        match self.position_of_email(email) {
            None => None,
            Some(i) => {
                proof {
                    lemma_lookup(self.row_models(), i as int);
                }
                Some(self.rows[i].duplicate())
            },
        }
    }

    /// Writes a new subscriber, who has yet to confirm. Nothing is written
    /// when the identifier or the address is taken; the identifier is looked
    /// at first.
    pub fn insert_subscriber_as(
        &mut self,
        id: u128,
        new_subscriber: &NewSubscriber,
        now: i64,
    ) -> (outcome: Result<(), RowError>)
        requires
            old(self).wf(),
        ensures
            final(self).wf(),
            final(self)@.tokens == old(self)@.tokens,
            outcome == insert_outcome(old(self)@.rows, id, new_subscriber.email@),
            final(self)@.rows == if outcome is Ok {
                old(self)@.rows.insert(id, pending(new_subscriber.email@, new_subscriber.name@, now))
            } else {
                old(self)@.rows
            },
    {
        proof {
            lemma_domain(self.row_models(), id);
            self.lemma_email_search(new_subscriber.email@);
        }
        if self.position(id).is_some() {
            return Err(RowError::DuplicateId);
        }
        if self.position_of_email(new_subscriber.email.as_ref()).is_some() {
            return Err(RowError::DuplicateEmail);
        }
        let ghost rows = self.row_models();
        let row = Subscription {
            id,
            email: String::from_str(new_subscriber.email.as_ref()),
            name: String::from_str(new_subscriber.name.as_ref()),
            subscribed_at: now,
            status: SubscriptionStatus::PendingConfirmation,
        };
        let ghost model = row@;
        self.rows.push(row);
        proof {
            lemma_push(rows, id, model);
            assert(self.row_models() =~= rows.push((id, model)));
            assert(self.token_models() =~= old(self).token_models());
            assert forall|i: int, j: int|
                0 <= i < self.row_models().len() && 0 <= j < self.row_models().len() && i
                    != j implies (#[trigger] self.row_models()[i]).1.email != (
            #[trigger] self.row_models()[j]).1.email by {
                if i < rows.len() {
                    assert(self.row_models()[i] == rows[i]);
                }
                if j < rows.len() {
                    assert(self.row_models()[j] == rows[j]);
                }
            }
        }
        Ok(())
    }

    /// Writes the token of a subscriber. Nothing is written when there is
    /// no such subscriber or the token is in use; the subscriber is looked
    /// at first.
    pub fn store_token(&mut self, subscriber_id: u128, subscription_token: &str) -> (outcome:
        Result<(), RowError>)
        requires
            old(self).wf(),
        ensures
            final(self).wf(),
            final(self)@.rows == old(self)@.rows,
            outcome == token_outcome(old(self)@, subscriber_id, subscription_token@),
            final(self)@.tokens == if outcome is Ok {
                old(self)@.tokens.insert(subscription_token@, subscriber_id)
            } else {
                old(self)@.tokens
            },
    {
        proof {
            lemma_domain(self.row_models(), subscriber_id);
            lemma_domain(self.token_models(), subscription_token@);
        }
        if self.position(subscriber_id).is_none() {
            return Err(RowError::UnknownSubscriber);
        }
        if self.position_of_token(subscription_token).is_some() {
            return Err(RowError::DuplicateToken);
        }
        let ghost tokens = self.token_models();
        self.tokens.push(TokenRow { token: String::from_str(subscription_token), subscriber_id });
        proof {
            lemma_push(tokens, subscription_token@, subscriber_id);
            assert(self.token_models() =~= tokens.push((subscription_token@, subscriber_id)));
            assert(self.row_models() =~= old(self).row_models());
        }
        Ok(())
    }

    /// The subscriber that a token belongs to, if the token is known.
    pub fn get_subscriber_id_from_token(&self, subscription_token: &str) -> (found: Option<u128>)
        requires
            self.wf(),
        ensures
            found == if self@.tokens.dom().contains(subscription_token@) {
                Some(self@.tokens[subscription_token@])
            } else {
                None
            },
    {
        proof {
            lemma_domain(self.token_models(), subscription_token@);
        }
        match self.position_of_token(subscription_token) {
            None => None,
            Some(i) => {
                proof {
                    lemma_lookup(self.token_models(), i as int);
                }
                Some(self.tokens[i].subscriber_id)
            },
        }
    }

    /// Marks a subscriber as confirmed. Confirming twice changes nothing,
    /// and neither does confirming a subscriber that does not exist. Says
    /// whether the subscriber exists.
    pub fn confirm_subscriber(&mut self, subscriber_id: u128) -> (known: bool)
        requires
            old(self).wf(),
        ensures
            final(self).wf(),
            known == old(self)@.rows.dom().contains(subscriber_id),
            final(self)@.tokens == old(self)@.tokens,
            final(self)@.rows == confirmed(old(self)@.rows, subscriber_id),
    {
        proof {
            lemma_domain(self.row_models(), subscriber_id);
        }
        match self.position(subscriber_id) {
            None => false,
            Some(i) => {
                let ghost rows = self.row_models();
                proof {
                    lemma_lookup(rows, i as int);
                }
                let row = Subscription {
                    id: subscriber_id,
                    email: self.rows[i].email.clone(),
                    name: self.rows[i].name.clone(),
                    subscribed_at: self.rows[i].subscribed_at,
                    status: SubscriptionStatus::Confirmed,
                };
                let ghost model = row@;
                self.rows.set(i, row);
                proof {
                    lemma_update(rows, i as int, model);
                    assert(self.row_models() =~= rows.update(i as int, (rows[i as int].0, model)));
                    assert(self.token_models() =~= old(self).token_models());
                    assert forall|a: int, b: int|
                        0 <= a < self.row_models().len() && 0 <= b < self.row_models().len() && a
                            != b implies (#[trigger] self.row_models()[a]).1.email != (
                    #[trigger] self.row_models()[b]).1.email by {
                        assert(self.row_models()[a].1.email == rows[a].1.email);
                        assert(self.row_models()[b].1.email == rows[b].1.email);
                    }
                }
                true
            },
        }
    }

    /// The addresses of the subscribers that are confirmed at this moment,
    /// each once.
    pub fn confirmed_emails(&self) -> (emails: Vec<String>)
        requires
            self.wf(),
        ensures
            texts(emails@).no_duplicates(),
            forall|email: Seq<char>| #[trigger]
                texts(emails@).contains(email) <==> is_confirmed_email(self@.rows, email),
    {
        let ghost rows = self.row_models();
        let mut emails: Vec<String> = Vec::new();
        let mut origin: Ghost<Seq<int>> = Ghost(Seq::empty());
        let mut i: usize = 0;
        while i < self.rows.len()
            invariant
                i <= self.rows@.len(),
                rows == self.row_models(),
                self.wf(),
                origin@.len() == emails@.len(),
                forall|k: int|
                    0 <= k < emails@.len() ==> 0 <= #[trigger] origin@[k] < i && rows[origin@[k]].1.email
                        == emails@[k]@ && rows[origin@[k]].1.status
                        == SubscriptionStatus::Confirmed,
                forall|k: int, l: int|
                    0 <= k < l < emails@.len() ==> #[trigger] origin@[k] < #[trigger] origin@[l],
                forall|r: int|
                    0 <= r < i && (#[trigger] rows[r]).1.status == SubscriptionStatus::Confirmed
                        ==> exists|k: int| 0 <= k < emails@.len() && #[trigger] origin@[k] == r,
            decreases self.rows@.len() - i,
        {
            if self.rows[i].status == SubscriptionStatus::Confirmed {
                let ghost before = origin@;
                emails.push(self.rows[i].email.clone());
                proof {
                    origin@ = before.push(i as int);
                    assert forall|r: int|
                        0 <= r < i + 1 && (#[trigger] rows[r]).1.status
                            == SubscriptionStatus::Confirmed implies exists|k: int|
                        0 <= k < emails@.len() && #[trigger] origin@[k] == r by {
                        if r < i {
                            let k = choose|k: int| 0 <= k < before.len() && #[trigger] before[k] == r;
                            assert(origin@[k] == r);
                        } else {
                            assert(origin@[before.len() as int] == r);
                        }
                    }
                }
            }
            i += 1;
        }
        proof {
            let out = texts(emails@);
            assert forall|k: int, l: int| 0 <= k < out.len() && 0 <= l < out.len() && k != l implies out[k]
                != out[l] by {
                assert(origin@[k] != origin@[l]);
                assert(rows[origin@[k]].1.email == out[k]);
                assert(rows[origin@[l]].1.email == out[l]);
            }
            assert forall|email: Seq<char>| #[trigger]
                out.contains(email) <==> is_confirmed_email(self@.rows, email) by {
                if out.contains(email) {
                    let k = choose|k: int| 0 <= k < out.len() && out[k] == email;
                    let r = origin@[k];
                    lemma_lookup(rows, r);
                    assert(self@.rows[rows[r].0].email == email);
                }
                if is_confirmed_email(self@.rows, email) {
                    let id = choose|id: u128|
                        self@.rows.dom().contains(id) && (#[trigger] self@.rows[id]).email == email
                            && self@.rows[id].status == SubscriptionStatus::Confirmed;
                    lemma_domain(rows, id);
                    let r = choose|r: int| 0 <= r < rows.len() && (#[trigger] rows[r]).0 == id;
                    lemma_lookup(rows, r);
                    let k = choose|k: int| 0 <= k < emails@.len() && #[trigger] origin@[k] == r;
                    assert(out[k] == email);
                }
            }
        }
        emails
    }
}

} // verus!
