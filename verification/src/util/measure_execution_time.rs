//! Timing a piece of work.
use vstd::prelude::*;

use std::time::{Duration, Instant};

verus! {

#[verifier::external_type_specification]
#[verifier::external_body]
pub struct ExInstant(Instant);

/// `Instant::now`: a reading of the monotonic clock.
#[verifier::external_body]
pub(crate) fn instant_now() -> Instant {
    Instant::now()
}

/// `Instant::elapsed`: the time since the reading; nothing is promised of it.
#[verifier::external_body]
pub(crate) fn instant_elapsed(start: &Instant) -> Duration {
    start.elapsed()
}

/// `Duration::as_millis`.
#[verifier::external_body]
pub(crate) fn duration_millis(d: &Duration) -> u128 {
    d.as_millis()
}

/// Runs `closure` and measures how long it took.
pub fn measure_execution_time<T, F: FnOnce() -> T>(closure: F) -> (r: (T, Duration))
    requires
        closure.requires(()),
    ensures
        closure.ensures((), r.0),
{
    let start_time = instant_now();
    let v = closure();
    let duration = instant_elapsed(&start_time);
    (v, duration)
}

/// Runs `closure` and measures how long it took; an error is passed on
/// without the time.
pub fn measure_execution_time_result<T, E, F: FnOnce() -> Result<T, E>>(closure: F) -> (r: Result<
    (T, Duration),
    E,
>)
    requires
        closure.requires(()),
    ensures
        exists|out: Result<T, E>|
            closure.ensures((), out) && match (out, r) {
                (Ok(v), Ok(p)) => p.0 == v,
                (Err(e), Err(f)) => e == f,
                _ => false,
            },
{
    let start_time = instant_now();
    let v = closure();
    match v {
        Ok(x) => {
            let duration = instant_elapsed(&start_time);
            Ok((x, duration))
        },
        Err(e) => Err(e),
    }
}

} // verus!
