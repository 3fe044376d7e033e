//! What the library needs of `std::time::Duration`.
use vstd::prelude::*;

use std::time::Duration;

verus! {

/// The length of a duration in whole nanoseconds, as `Duration::as_nanos` returns it.
pub uninterp spec fn nanos_of(d: Duration) -> u128;

/// `Duration::as_nanos`: the total number of whole nanoseconds in the duration.
#[verifier::external_body]
pub(crate) fn duration_as_nanos(d: Duration) -> (nanos: u128)
    ensures
        nanos == nanos_of(d),
{
    d.as_nanos()
}

} // verus!
