//! The wall clock, behind a single trusted call.

use vstd::prelude::*;

verus! {

/// Relies on chrono's `Utc::now`: the current wall-clock time as a unix
/// timestamp in seconds. The value depends on the environment; nothing is
/// promised of it. chrono itself panics when the host clock is set before
/// the Unix epoch, so this call inherits that environmental panic path.
#[verifier::external_body]
pub fn now_timestamp() -> i64 {
    chrono::Utc::now().timestamp()
}

} // verus!
