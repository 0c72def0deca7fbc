use vstd::prelude::*;
use std::time::{Duration, Instant, SystemTime};
use rand::rngs::OsRng;
use rand::RngCore;

verus! {

#[verifier::external_type_specification]
#[verifier::external_body]
pub struct ExSystemTime(SystemTime);

#[verifier::external_type_specification]
#[verifier::external_body]
pub struct ExInstant(Instant);

/// A reading of the monotonic clock, from `std::time::Instant::now`.
/// Nothing is stated of it: it depends on the machine.
#[verifier::external_body]
pub(crate) fn instant_now() -> (t: Instant) {
    Instant::now()
}

/// The time that has passed since `start` by the monotonic clock, from
/// `Instant::elapsed` (which gives zero rather than a negative span).
/// Nothing is stated of it: it depends on the time of the call.
#[verifier::external_body]
fn instant_elapsed(start: &Instant) -> (d: Duration) {
    start.elapsed()
}

/// The system clock's reading, from `std::time::SystemTime::now`. Nothing is
/// stated of it: it depends on the machine's clock.
#[verifier::external_body]
fn system_now() -> (t: SystemTime) {
    SystemTime::now()
}

/// The time from the Unix epoch to `t`, from
/// `SystemTime::duration_since(UNIX_EPOCH)`; none where that call returns
/// its error, which it does when `t` stands before the epoch.
#[verifier::external_body]
fn since_epoch(t: &SystemTime) -> (d: Option<Duration>) {
    t.duration_since(std::time::UNIX_EPOCH).ok()
}

/// The whole milliseconds of a duration, from `Duration::as_millis`.
#[verifier::external_body]
fn whole_millis(d: &Duration) -> (ms: u128) {
    d.as_millis()
}

/// Milliseconds since the Unix epoch by the system clock; none when the
/// clock stands before 1970 or the count does not fit in 64 bits.
pub(crate) fn now_millis() -> (t: Option<u64>) {
    let now = system_now();
    match since_epoch(&now) {
        Some(d) => {
            let ms = whole_millis(&d);
            if ms <= 0xffff_ffff_ffff_ffffu128 {
                Some(ms as u64)
            } else {
                None
            }
        },
        None => None,
    }
}

/// Whole milliseconds since `start` by the monotonic clock, held at the
/// largest 64-bit count should more have passed.
pub(crate) fn millis_since(start: &Instant) -> (ms: u64) {
    let d = instant_elapsed(start);
    let total = whole_millis(&d);
    if total <= 0xffff_ffff_ffff_ffffu128 {
        total as u64
    } else {
        0xffff_ffff_ffff_ffffu64
    }
}

/// Fills `buf` with random bytes from the operating system, through
/// `rand::rngs::OsRng::try_fill_bytes`; false when that call returns its
/// error (the system source failed). The length of `buf` is kept; its bytes
/// are random.
#[verifier::external_body]
pub(crate) fn fill_random(buf: &mut Vec<u8>) -> (ok: bool)
    ensures
        final(buf)@.len() == old(buf)@.len(),
{
    OsRng.try_fill_bytes(buf.as_mut_slice()).is_ok()
}

/// A random 64-bit number from the operating system's source; none when the
/// source fails.
pub(crate) fn random_u64() -> (r: Option<u64>) {
    let mut buf: Vec<u8> = vec![0u8; 8];
    if !fill_random(&mut buf) {
        return None;
    }
    let mut acc: u64 = 0;
    let mut i: usize = 0;
    while i < 8
        invariant
            buf@.len() == 8,
            i <= 8,
        decreases 8 - i,
    {
        acc = (acc << 8u64) | (buf[i] as u64);
        i = i + 1;
    }
    Some(acc)
}

} // verus!
