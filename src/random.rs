use std::time::{Duration, SystemTime, UNIX_EPOCH};
use vstd::prelude::*;

verus! {

/// The system clock's reading, from std.
#[verifier::external_type_specification]
#[verifier::external_body]
pub struct ExSystemTime(SystemTime);

/// Relies on std's `SystemTime::now`: the current reading of the system clock.
/// It depends on the time of the call, so nothing is said of it.
pub assume_specification[ SystemTime::now ]() -> SystemTime;

/// Relies on std's `Duration::as_millis`: the whole milliseconds of a duration.
pub assume_specification[ Duration::as_millis ](d: &Duration) -> u128;

/// Relies on std's `SystemTime::duration_since` with `UNIX_EPOCH`: the time from the
/// epoch to `t`, or `None` when `t` is earlier than the epoch.
#[verifier::external_body]
fn since_epoch(t: &SystemTime) -> (r: Option<Duration>) {
    t.duration_since(UNIX_EPOCH).ok()
}

/// A pseudo-random number scrambled from the current time in milliseconds.
///
/// A clock set before the Unix epoch counts as time zero.
pub fn generate() -> (r: u64) {
    let now = SystemTime::now();
    let mut seed: u128 = match since_epoch(&now) {
        Some(d) => d.as_millis(),
        None => 0,
    };
    seed = seed.wrapping_add(0xa0761d6478bd642f);
    let t: u128 = seed.wrapping_mul(seed ^ 0xe7037ed1a0b428db);
    ((t >> 64u32) ^ t) as u64
}

/// A pseudo-random number in `[low, high)`.
pub fn generate_range(low: u64, high: u64) -> (r: u64)
    requires
        low < high,
    ensures
        low <= r < high,
{
    generate() % (high - low) + low
}

} // verus!
