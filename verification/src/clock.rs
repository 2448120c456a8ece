//! The one place the library reads the clock.
//!
//! Every operation that stamps a record takes the moment as an argument, so
//! its contract can say exactly which fields carry it; this wrapper is how a
//! caller obtains that moment.

use vstd::prelude::*;

verus! {

/// Relies on chrono's `Utc::now`: seconds since the Unix epoch.  The result
/// depends on the wall clock, so nothing is promised of it.
#[verifier::external_body]
pub fn current_timestamp() -> i64 {
    chrono::Utc::now().timestamp()
}

} // verus!
