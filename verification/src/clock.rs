//! The time of day.

use vstd::prelude::*;

verus! {

/// Reads the clock with `chrono::Utc::now` and hands out the seconds since
/// the epoch that `timestamp` gives. Nothing is said of the result: it is
/// whatever the clock shows.
#[verifier::external_body]
pub(crate) fn current_time() -> (now: i64) {
    chrono::Utc::now().timestamp()
}

} // verus!
