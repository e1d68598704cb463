//! The clock and the random id source of the daemon.
use rand::distr::Alphanumeric;
use rand::Rng;
use std::time::{Duration, SystemTime, UNIX_EPOCH};
use vstd::prelude::*;

verus! {

/// An ASCII letter or digit.
pub open spec fn is_alphanumeric(c: char) -> bool {
    ('a' <= c && c <= 'z') || ('A' <= c && c <= 'Z') || ('0' <= c && c <= '9')
}

/// The system clock's time.
#[verifier::external_type_specification]
#[verifier::external_body]
pub struct ExSystemTime(SystemTime);

/// std's `SystemTime::now`: the system clock's current time. Nothing is
/// stated of it: it depends on the clock.
#[verifier::external_body]
fn system_now() -> SystemTime {
    SystemTime::now()
}

/// std's `SystemTime::duration_since` from the Unix epoch: the time elapsed
/// since the epoch, none when `t` lies before it. Nothing more is stated:
/// the time is opaque here.
#[verifier::external_body]
fn since_epoch(t: &SystemTime) -> Option<Duration> {
    t.duration_since(UNIX_EPOCH).ok()
}

/// std's `Duration::as_millis`: the whole milliseconds of `d`. Nothing is
/// stated of the value: the duration is opaque here.
#[verifier::external_body]
fn whole_millis(d: &Duration) -> u128 {
    d.as_millis()
}

/// The current time in milliseconds since the Unix epoch, as the system clock
/// reports it, cut to 64 bits as `as u64` cuts it; none when the clock is set
/// before the epoch.
pub fn unix_now_ms() -> Option<u64> {
    let now = system_now();
    match since_epoch(&now) {
        Some(d) => {
            let ms = whole_millis(&d);
            Some(#[verifier::truncate] (ms as u64))
        },
        None => None,
    }
}

/// A random string of `len` characters drawn with `rand`'s `Alphanumeric`
/// distribution from the thread-local generator (`rand::rng`). The contract
/// states what that distribution guarantees of every outcome: the length, and
/// that each character is an ASCII letter or digit.
#[verifier::external_body]
pub fn generate_random_id(len: usize) -> (r: String)
    ensures
        r@.len() == len,
        forall|i: int| 0 <= i < len ==> is_alphanumeric(#[trigger] r@[i]),
{
    rand::rng().sample_iter(&Alphanumeric).take(len).map(char::from).collect()
}

} // verus!
