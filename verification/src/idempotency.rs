//! Idempotency keys.

use crate::identifiers::{fresh_id, hyphenated, hyphenated_text, is_version_four};
use vstd::prelude::*;

verus! {

/// Longest key that is accepted, counted in characters.
pub const MAX_KEY_LENGTH: usize = 50;

/// What a text must satisfy to be an idempotency key.
pub open spec fn is_valid_key(text: Seq<char>) -> bool {
    0 < text.len() <= MAX_KEY_LENGTH
}

/// Why a text was refused as an idempotency key.
#[derive(Clone, Copy, Debug, PartialEq, Eq, Structural)]
pub enum KeyError {
    /// The text is empty.
    Empty,
    /// The text has more than `MAX_KEY_LENGTH` characters.
    TooLong,
}

impl KeyError {
    /// The message shown to the client for this error.
    pub fn message(&self) -> (text: &'static str)
        ensures
            text@ == match *self {
                KeyError::Empty => "The idempotency key cannot be empty"@,
                KeyError::TooLong => "The idempotency key must be at most 50 characters long"@,
            },
    {
        match self {
            KeyError::Empty => "The idempotency key cannot be empty",
            KeyError::TooLong => "The idempotency key must be at most 50 characters long",
        }
    }
}

/// A client-chosen token that names one logical request of one principal.
#[derive(Debug)]
pub struct IdempotencyKey {
    text: String,
}

impl View for IdempotencyKey {
    type V = Seq<char>;

    closed spec fn view(&self) -> Seq<char> {
        self.text@
    }
}

impl IdempotencyKey {
    /// Every key that exists is non-empty and bounded.
    #[verifier::type_invariant]
    closed spec fn well_formed(&self) -> bool {
        is_valid_key(self.text@)
    }

    /// Validates `text` as a key. Nothing but the length is looked at.
    pub fn try_from(text: String) -> (outcome: Result<IdempotencyKey, KeyError>)
        ensures
            is_valid_key(text@) <==> outcome is Ok,
            outcome is Ok ==> outcome->Ok_0@ == text@,
            text@.len() == 0 <==> outcome == Err::<IdempotencyKey, KeyError>(KeyError::Empty),
            text@.len() > MAX_KEY_LENGTH <==> outcome == Err::<IdempotencyKey, KeyError>(
                KeyError::TooLong,
            ),
    {
        let length: usize = text.as_str().unicode_len();
        if length == 0 {
            Err(KeyError::Empty)
        } else if length > MAX_KEY_LENGTH {
            Err(KeyError::TooLong)
        } else {
            Ok(IdempotencyKey { text })
        }
    }

    /// The key that names the identifier `id`: its hyphenated form, which
    /// is always a valid key.
    pub fn from_id(id: u128) -> (key: IdempotencyKey)
        ensures
            key@ == hyphenated_text(id),
    {
        IdempotencyKey { text: hyphenated(id) }
    }

    /// A fresh key for a form that is about to be shown. Whatever
    /// identifier was drawn for it, it is a random UUID, and the key is its
    /// hyphenated form.
    pub fn generate() -> (key: IdempotencyKey)
        ensures
            exists|id: u128| is_version_four(id) && key@ == #[trigger] hyphenated_text(id),
    {
        Self::from_id(fresh_id())
    }

    /// The key's text.
    pub fn as_str(&self) -> (text: &str)
        ensures
            text@ == self@,
            is_valid_key(text@),
    {
        proof {
            use_type_invariant(self);
        }
        self.text.as_str()
    }

    /// A second key with the same text.
    pub fn duplicate(&self) -> (copy: IdempotencyKey)
        ensures
            copy@ == self@,
    {
        proof {
            use_type_invariant(self);
        }
        IdempotencyKey { text: self.text.clone() }
    }

    /// Whether two keys have the same text.
    pub fn same_as(&self, other: &IdempotencyKey) -> (same: bool)
        ensures
            same == (self@ == other@),
    {
        self.text == other.text
    }
}

} // verus!
