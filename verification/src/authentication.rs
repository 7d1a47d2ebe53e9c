//! Who a request comes from.

use crate::response::{see_other_model, SavedResponse};
use vstd::prelude::*;
use vstd::string::StringSliceAdditionalSpecFns;

verus! {

/// The identifier of a logged-in user.
#[derive(Clone, Copy, Debug, PartialEq, Eq, Structural)]
pub struct UserId(pub u128);

/// What the session says about the sender of a request.
#[derive(Debug)]
pub enum SessionLookup {
    /// The session belongs to this user.
    LoggedIn(u128),
    /// The session names no user.
    Anonymous,
    /// The session could not be read; the text says why.
    Failed(String),
}

/// What to do with a request to a protected route.
#[derive(Debug)]
pub enum Admission {
    /// Pass the request on, with the user attached.
    Admit(UserId),
    /// Answer with this redirect.
    Redirect(SavedResponse),
    /// Answer with a server error; the text says why.
    Fail(String),
}

/// Decides on a request to a protected route: a user passes, an anonymous
/// sender is sent to the login page, and a session that cannot be read is a
/// failure of the service.
pub fn reject_anonymous_users(lookup: SessionLookup) -> (admission: Admission)
    ensures
        match lookup {
            SessionLookup::LoggedIn(id) => admission is Admit && admission->Admit_0 == UserId(id),
            SessionLookup::Anonymous => admission is Redirect && admission->Redirect_0@
                == see_other_model("/login".spec_bytes()),
            SessionLookup::Failed(cause) => admission is Fail && admission->Fail_0 == cause,
        },
{
    match lookup {
        SessionLookup::LoggedIn(id) => Admission::Admit(UserId(id)),
        SessionLookup::Anonymous => Admission::Redirect(SavedResponse::see_other("/login")),
        SessionLookup::Failed(cause) => Admission::Fail(cause),
    }
}

} // verus!
