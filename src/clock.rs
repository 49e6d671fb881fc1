use vstd::prelude::*;

verus! {

/// Microseconds since the Unix epoch, read from the system clock.
///
/// Relies on `std::time::SystemTime::now` and `SystemTime::duration_since`:
/// nothing is promised of the value, which depends on the clock. A clock set
/// before the epoch reads as zero.
#[verifier::external_body]
pub fn duration_since_epoch() -> (now: u64) {
    match std::time::SystemTime::now().duration_since(std::time::UNIX_EPOCH) {
        Ok(d) => d.as_micros() as u64,
        Err(_) => 0,
    }
}

} // verus!
