//! Instants of the wall clock and whole seconds between them.
use vstd::prelude::*;

verus! {

/// An instant as seconds and nanoseconds since the Unix epoch (UTC).
#[derive(Debug, Clone, Copy, PartialEq, Eq, Structural)]
pub struct Timestamp {
    pub secs: i64,
    pub nanos: u32,
}

pub open spec fn nanos_per_sec() -> int {
    1_000_000_000
}

/// The instant in nanoseconds since the epoch.
pub open spec fn total_nanos(t: Timestamp) -> int {
    t.secs * nanos_per_sec() + t.nanos
}

/// A second past every instant chrono can represent (its last year is
/// 262142; this is the end of the year after it).
pub open spec fn clock_bound_secs() -> int {
    8_210_298_412_799
}

/// An instant as the clock gives them: not before the epoch, within the
/// range chrono represents, and the nanoseconds below one second.
pub open spec fn well_formed(t: Timestamp) -> bool {
    &&& 0 <= t.secs <= clock_bound_secs()
    &&& t.nanos < 1_000_000_000
}

/// Whole seconds from `earlier` to `later`, cut toward zero (negative when
/// `later` comes first), as `signed_duration_since(..).num_seconds()` counts them.
pub open spec fn whole_seconds(later: Timestamp, earlier: Timestamp) -> int {
    let d = total_nanos(later) - total_nanos(earlier);
    if d >= 0 {
        d / nanos_per_sec()
    } else {
        -((-d) / nanos_per_sec())
    }
}

/// Calls `chrono::Utc::now` and keeps its seconds and sub-second nanoseconds.
/// The instant depends on the clock; what chrono's source shows of every
/// instant it returns is stated: it is not before the epoch (an earlier clock
/// makes chrono panic), not after `DateTime::MAX_UTC` (`from_timestamp`
/// would fail and chrono panics on it), and the nanoseconds come from
/// `Duration::subsec_nanos`, so they are below one second.
#[verifier::external_body]
pub(crate) fn now() -> (t: Timestamp)
    ensures
        well_formed(t),
{
    let dt = chrono::Utc::now();
    Timestamp { secs: dt.timestamp(), nanos: dt.timestamp_subsec_nanos() }
}

/// Whole seconds from `earlier` to `later`, cut toward zero.
pub fn seconds_between(later: Timestamp, earlier: Timestamp) -> (r: i64)
    requires
        well_formed(later),
        well_formed(earlier),
    ensures
        r == whole_seconds(later, earlier),
{
    let d: i128 = (later.secs as i128 - earlier.secs as i128) * 1_000_000_000i128
        + (later.nanos as i128 - earlier.nanos as i128);
    assert(d == total_nanos(later) - total_nanos(earlier)) by (nonlinear_arith)
        requires
            d == (later.secs - earlier.secs) * 1_000_000_000 + (later.nanos - earlier.nanos),
    ;
    if d >= 0 {
        let q: i128 = d / 1_000_000_000i128;
        assert(q <= i64::MAX) by (nonlinear_arith)
            requires
                q == d / 1_000_000_000,
                0 <= d,
                d <= 8_210_298_412_799 * 1_000_000_000 + 1_000_000_000,
        ;
        q as i64
    } else {
        let q: i128 = (-d) / 1_000_000_000i128;
        assert(q <= i64::MAX) by (nonlinear_arith)
            requires
                q == (-d) / 1_000_000_000,
                0 < -d,
                -d <= 8_210_298_412_799 * 1_000_000_000 + 1_000_000_000,
        ;
        -(q as i64)
    }
}

} // verus!
