//! The wall clock.

use vstd::prelude::*;

verus! {

/// `Utc::now` of `chrono`, as seconds since the Unix epoch. The clock is
/// never read as lying before the epoch, so the seconds are not negative;
/// nothing else is claimed of them.
#[verifier::external_body]
pub(crate) fn now() -> (seconds: i64)
    ensures
        seconds >= 0,
{
    chrono::Utc::now().timestamp()
}

} // verus!
