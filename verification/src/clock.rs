//! Points in time as plain numbers, and the one-second sampling window.

use vstd::prelude::*;

verus! {

/// A point in time: whole seconds since the epoch, and the nanoseconds
/// into the second that follows them.
#[derive(Clone, Copy, Debug, PartialEq, Eq, Structural)]
pub struct Timestamp {
    pub secs: i64,
    pub nanos: i32,
}

/// The nanoseconds in one second.
pub open spec fn nanos_per_second() -> int {
    1_000_000_000
}

/// The nanoseconds that lie between `start` and `now`; negative where
/// `now` is the earlier of the two.
pub open spec fn nanos_between(start: Timestamp, now: Timestamp) -> int {
    (now.secs - start.secs) * nanos_per_second() + (now.nanos - start.nanos)
}

/// Whether a sampling window opened at `start` is over at `now`: at
/// least one second lies between them.
pub open spec fn window_elapsed(start: Timestamp, now: Timestamp) -> bool {
    nanos_between(start, now) >= nanos_per_second()
}

/// Decides whether a sampling window opened at `start` is over at `now`.
pub fn second_elapsed(start: Timestamp, now: Timestamp) -> (over: bool)
    ensures
        over == window_elapsed(start, now),
{
    let whole: i128 = now.secs as i128 - start.secs as i128;
    let part: i128 = now.nanos as i128 - start.nanos as i128;
    assert(-0x1_0000_0000_0000_0000 * 1_000_000_000 <= whole * 1_000_000_000
        <= 0x1_0000_0000_0000_0000 * 1_000_000_000) by (nonlinear_arith)
        requires
            -0x1_0000_0000_0000_0000 <= whole <= 0x1_0000_0000_0000_0000,
    ;
    whole * 1_000_000_000 + part >= 1_000_000_000
}

/// Reads the clock by `time::now` and hands back what `Tm::to_timespec`
/// makes of it, field by field. Nothing is claimed of the seconds; the
/// nanoseconds lie within one second, which `Timespec::new` checks.
#[verifier::external_body]
pub(crate) fn clock_now() -> (t: Timestamp)
    ensures
        0 <= t.nanos < 1_000_000_000,
{
    let spec = time::now().to_timespec();
    Timestamp { secs: spec.sec, nanos: spec.nsec }
}

} // verus!
