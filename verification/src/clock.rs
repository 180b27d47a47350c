use std::time::{Duration, SystemTime, SystemTimeError, UNIX_EPOCH};
use vstd::prelude::*;

verus! {

#[verifier::external_type_specification]
#[verifier::external_body]
pub struct ExSystemTime(SystemTime);

#[verifier::external_type_specification]
#[verifier::external_body]
pub struct ExSystemTimeError(SystemTimeError);

/// The largest number of whole milliseconds a `Duration` can span:
/// `u64::MAX` seconds and 999,999,999 nanoseconds.
pub const MAX_DURATION_MILLIS: u128 = 18446744073709551615999u128;

/// The whole milliseconds of a `Duration`, as `Duration::as_millis` gives them.
pub uninterp spec fn duration_millis(d: Duration) -> u128;

/// The `Duration` that `Duration::from_secs` builds from a count of seconds.
pub uninterp spec fn duration_of_secs(secs: u64) -> Duration;

/// `SystemTime::now`: the current time of the system clock.
#[verifier::external_body]
fn system_time_now() -> SystemTime {
    SystemTime::now()
}

/// `SystemTime::duration_since` against the Unix epoch: an error when the clock
/// reads a time before the epoch; what comes back depends on the clock.
#[verifier::external_body]
fn duration_since_epoch(t: SystemTime) -> Result<Duration, SystemTimeError> {
    t.duration_since(UNIX_EPOCH)
}

/// `Duration::as_millis`: the whole milliseconds of a duration. A duration holds at most
/// `u64::MAX` seconds and under a second of nanoseconds, so the count is bounded.
#[verifier::external_body]
pub(crate) fn duration_as_millis(d: Duration) -> (r: u128)
    ensures
        r == duration_millis(d),
        r <= MAX_DURATION_MILLIS,
{
    d.as_millis()
}

/// `Duration::new`: `secs` seconds and `nanos` nanoseconds (below one second, so no
/// carry into the seconds and no panic); its whole milliseconds are
/// `secs * 1000 + nanos / 1_000_000`.
#[verifier::external_body]
pub(crate) fn duration_new(secs: u64, nanos: u32) -> (d: Duration)
    requires
        nanos < 1_000_000_000,
    ensures
        duration_millis(d) == secs * 1000 + nanos / 1_000_000,
{
    Duration::new(secs, nanos)
}

/// `Duration::from_secs`: `secs` whole seconds.
#[verifier::external_body]
pub(crate) fn duration_from_secs(secs: u64) -> (d: Duration)
    ensures
        d == duration_of_secs(secs),
        duration_millis(d) == secs * 1000,
{
    Duration::from_secs(secs)
}

/// The longest duration that has `ms` whole milliseconds, or the longest duration there
/// is when `ms` is beyond it: its whole milliseconds are `ms`, at most
/// `MAX_DURATION_MILLIS`.
pub fn duration_of_ms(ms: u128) -> (d: Duration)
    ensures
        duration_millis(d) == if ms <= MAX_DURATION_MILLIS { ms } else { MAX_DURATION_MILLIS },
{
    if ms <= MAX_DURATION_MILLIS {
        let secs: u128 = ms / 1000;
        let rest: u128 = ms % 1000;
        assert(secs <= u64::MAX);
        assert(secs * 1000 + rest == ms);
        assert(rest * 1_000_000 / 1_000_000 == rest) by (nonlinear_arith)
            requires
                rest < 1000,
        ;
        duration_new(secs as u64, (rest * 1_000_000) as u32)
    } else {
        duration_new(18446744073709551615u64, 999_999_999u32)
    }
}

/// `t` counts the whole milliseconds of some `Duration`: it is a reading in the unit that
/// `Duration::as_millis` gives, and that the times to live of entries are added in.
pub open spec fn is_duration_millis(t: u128) -> bool {
    exists|d: Duration| #[trigger] duration_millis(d) == t
}

/// Milliseconds since the Unix epoch by the system clock: the whole milliseconds of the
/// `Duration` that `SystemTime::duration_since` gives against the epoch. A clock that
/// reads a time before the epoch reads as the epoch itself, 0.
pub fn now() -> (r: Option<u128>)
    ensures
        r matches Some(t) && t <= MAX_DURATION_MILLIS && is_duration_millis(t),
{
    match duration_since_epoch(system_time_now()) {
        Ok(d) => {
            let t = duration_as_millis(d);
            assert(duration_millis(d) == t);
            Some(t)
        },
        Err(_) => {
            let epoch = duration_from_secs(0);
            assert(duration_millis(epoch) == 0);
            Some(0)
        },
    }
}

} // verus!
