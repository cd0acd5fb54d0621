use vstd::prelude::*;

use rand::seq::SliceRandom;

verus! {

// The keyspace's two outside needs: wall-clock and monotonic time for
// expiration, and a random pick for the expiration sampler. Everything that
// depends on their results is verified for every value they may return.

#[verifier::external_type_specification]
#[verifier::external_body]
pub struct ExInstant(std::time::Instant);

#[verifier::external_type_specification]
#[verifier::external_body]
pub struct ExSystemTime(std::time::SystemTime);

/// Relies on std::time::Instant::now: an opaque monotonic timestamp.
#[verifier::external_body]
pub(crate) fn mono_now() -> std::time::Instant {
    std::time::Instant::now()
}

/// Relies on std::time::Instant::elapsed: the time since `start`.
#[verifier::external_body]
pub(crate) fn elapsed_of(start: &std::time::Instant) -> std::time::Duration {
    start.elapsed()
}

/// Relies on std::time::Duration::as_millis: the duration in milliseconds.
#[verifier::external_body]
pub(crate) fn duration_millis(d: &std::time::Duration) -> u128 {
    d.as_millis()
}

/// Relies on std::time::SystemTime::now: the wall clock.
#[verifier::external_body]
pub(crate) fn wall_now() -> std::time::SystemTime {
    std::time::SystemTime::now()
}

/// Relies on std::time::SystemTime::duration_since, measured from the epoch;
/// a clock before the epoch reads as `None`.
#[verifier::external_body]
pub(crate) fn since_epoch(t: &std::time::SystemTime) -> Option<std::time::Duration> {
    t.duration_since(std::time::UNIX_EPOCH).ok()
}

/// Relies on rand's `SliceRandom::choose`: `None` exactly on an empty slice,
/// otherwise a uniformly random element of `keys`.
#[verifier::external_body]
pub(crate) fn choose_key(keys: &Vec<Vec<u8>>) -> (r: Option<Vec<u8>>)
    ensures
        r is Some <==> keys@.len() > 0,
        r matches Some(k) ==> exists|i: int| 0 <= i < keys@.len() && keys@[i]@ == k@,
{
    keys.as_slice().choose(&mut rand::thread_rng()).cloned()
}

/// The wall clock as milliseconds since the epoch, clamped into a `u64`.
pub fn wall_clock_ms() -> u64 {
    match since_epoch(&wall_now()) {
        Some(d) => {
            let ms = duration_millis(&d);
            if ms > u64::MAX as u128 {
                u64::MAX
            } else {
                ms as u64
            }
        },
        None => 0,
    }
}

} // verus!
