//! The guard in front of the administration routes.

use crate::response::{see_other_model, SavedResponse};
use crate::text::{contains_bytes, occurs_in};
use vstd::prelude::*;
use vstd::string::StringSliceAdditionalSpecFns;

verus! {

/// The factory of the guard.
#[derive(Clone, Copy, Debug)]
pub struct Auth;

/// The guard: it lets every request pass but those to an administration
/// route that come without a login.
#[derive(Clone, Copy, Debug)]
pub struct AuthMiddleware;

/// What the guard does with a request.
#[derive(Debug)]
pub enum Gate {
    /// Hand the request to the route.
    Forward,
    /// Answer with this redirect; the route is not called.
    Redirect(SavedResponse),
}

/// Whether a path leads to an administration route: `/admin/` stands
/// somewhere in it.
pub open spec fn is_guarded(path: Seq<u8>) -> bool {
    occurs_in(path, "/admin/".spec_bytes())
}

impl Auth {
    /// Makes the guard.
    pub fn new_transform(&self) -> (guard: AuthMiddleware) {
        AuthMiddleware
    }
}

impl AuthMiddleware {
    /// Decides on a request to `path`, given whether its sender is logged
    /// in: only an anonymous request to an administration route is stopped,
    /// and sent to the login page.
    pub fn call(&self, path: &str, logged_in: bool) -> (gate: Gate)
        ensures
            !is_guarded(path.spec_bytes()) || logged_in ==> gate is Forward,
            is_guarded(path.spec_bytes()) && !logged_in ==> gate is Redirect && gate->Redirect_0@
                == see_other_model("/login".spec_bytes()),
    {
        if !contains_bytes(path.as_bytes(), "/admin/".as_bytes()) {
            Gate::Forward
        } else if logged_in {
            Gate::Forward
        } else {
            Gate::Redirect(SavedResponse::see_other("/login"))
        }
    }
}

} // verus!
