//! What the library knows about `std::time::Duration`.
//!
//! A duration is carried through as an opaque value.  The only thing the
//! library ever reads from one is its count of whole seconds, which is what
//! travels on the wire to a resident worker; the only durations it makes
//! are of whole seconds.

use std::time::Duration;
use vstd::prelude::*;

verus! {

/// The number of whole seconds in a duration: the value that
/// `Duration::as_secs` returns for it.
pub uninterp spec fn duration_secs(d: Duration) -> u64;

/// The part of a duration beyond its whole seconds, in nanoseconds: the
/// value that `Duration::subsec_nanos` returns for it.
pub uninterp spec fn duration_subsec_nanos(d: Duration) -> u32;

/// `Duration::from_secs` builds the duration of `secs` whole seconds and
/// nothing beyond them.
pub assume_specification[ Duration::from_secs ](secs: u64) -> (d: Duration)
    ensures
        duration_secs(d) == secs,
        duration_subsec_nanos(d) == 0,
;

/// `Duration::as_secs` returns the whole seconds of the duration.
pub assume_specification[ Duration::as_secs ](d: &Duration) -> (secs: u64)
    ensures
        secs == duration_secs(*d),
;

} // verus!
