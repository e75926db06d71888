//! Lengths of time, told in nanoseconds.

use std::time::Duration;
use vstd::prelude::*;

verus! {

/// How many nanoseconds `d` lasts.
pub uninterp spec fn duration_nanos(d: Duration) -> nat;

/// The nanoseconds in `secs` seconds.
pub open spec fn secs(secs: int) -> int {
    secs * 1_000_000_000
}

/// The nanoseconds in `millis` milliseconds.
pub open spec fn millis(millis: int) -> int {
    millis * 1_000_000
}

/// The shorter of two lengths of time.
pub open spec fn at_most(nanos: int, cap: int) -> int {
    if nanos <= cap {
        nanos
    } else {
        cap
    }
}

/// `Duration::from_secs`: the duration lasts that many whole seconds.
pub assume_specification[ Duration::from_secs ](secs: u64) -> (d: Duration)
    ensures
        duration_nanos(d) == self::secs(secs as int),
;

/// `Duration::from_millis`: the duration lasts that many milliseconds.
pub assume_specification[ Duration::from_millis ](millis: u64) -> (d: Duration)
    ensures
        duration_nanos(d) == self::millis(millis as int),
;

/// `Duration::as_nanos`: the whole length in nanoseconds.
pub assume_specification[ Duration::as_nanos ](d: &Duration) -> (nanos: u128)
    ensures
        nanos == duration_nanos(*d),
;

/// `Duration::saturating_mul`: the product where a duration can hold it, which is
/// so up to `u64::MAX` seconds; a product beyond that gives the longest duration,
/// which lasts at least as long.
pub assume_specification[ Duration::saturating_mul ](d: Duration, by: u32) -> (product: Duration)
    ensures
        duration_nanos(d) * by <= secs(u64::MAX as int) ==> duration_nanos(product)
            == duration_nanos(d) * by,
        duration_nanos(d) * by > secs(u64::MAX as int) ==> duration_nanos(product) >= secs(
            u64::MAX as int,
        ),
;

/// The shorter of two durations.
pub fn shorter(a: Duration, b: Duration) -> (r: Duration)
    ensures
        duration_nanos(r) == at_most(duration_nanos(a) as int, duration_nanos(b) as int),
        r == a || r == b,
{
    if a.as_nanos() <= b.as_nanos() {
        a
    } else {
        b
    }
}

} // verus!
