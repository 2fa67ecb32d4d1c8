//! The node's clock.

use vstd::prelude::*;

verus! {

/// Relies on `chrono::Utc::now`: the current Unix timestamp in seconds.
/// The result depends on the wall clock, so nothing is stated about it;
/// every consumer is specified for an arbitrary timestamp.
#[verifier::external_body]
pub fn current_timestamp() -> i64 {
    chrono::Utc::now().timestamp()
}

} // verus!
