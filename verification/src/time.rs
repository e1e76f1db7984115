//! Time spans as nanosecond counts.
use vstd::prelude::*;

verus! {

/// The largest number of nanoseconds a `std::time::Duration` can hold:
/// `u64::MAX` whole seconds plus 999,999,999 nanoseconds.
pub const MAX_DURATION_NANOS: u128 = 18_446_744_073_709_551_615_999_999_999u128;

/// The total number of whole nanoseconds in `d`, as
/// `std::time::Duration::as_nanos` computes it.
pub uninterp spec fn duration_as_nanos(d: std::time::Duration) -> u128;

/// Calls `std::time::Duration::as_nanos`, the total number of whole
/// nanoseconds in `d`. Claimed: the result depends on `d` alone (it is
/// `duration_as_nanos(d)`), and it is at most `MAX_DURATION_NANOS`. A
/// `Duration` has no view, so what that total is for a given `d` is
/// left unsaid.
#[verifier::external_body]
pub(crate) fn duration_nanos(d: std::time::Duration) -> (r: u128)
    ensures
        r == duration_as_nanos(d),
        r <= MAX_DURATION_NANOS,
{
    d.as_nanos()
}

} // verus!
