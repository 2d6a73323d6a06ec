//! The present time.

use vstd::prelude::*;

verus! {

/// A bound on every time that the clock shows, in seconds.
pub const CLOCK_LIMIT: i64 = 281_474_976_710_656;

/// Calls `chrono::Utc::now` and takes the seconds since 1970 of it. `now` is never
/// before 1970, and its days are counted in 32 bits. Which time it is, is left open.
#[verifier::external_body]
pub(crate) fn now() -> (seconds: i64)
    ensures
        0 <= seconds <= CLOCK_LIMIT,
{
    chrono::Utc::now().timestamp()
}

} // verus!
