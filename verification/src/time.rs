//! The wall-clock timestamp source consumed by newly created transaction
//! records.

use vstd::prelude::*;

verus! {

/// Relies on `std::time::SystemTime::now`: the current wall-clock time in
/// milliseconds since the Unix epoch (0 if the clock reads earlier than the
/// epoch). Nothing is promised of the value: it depends on the clock.
#[verifier::external_body]
pub fn create_timestamp() -> u64 {
    match std::time::SystemTime::now().duration_since(std::time::UNIX_EPOCH) {
        Ok(d) => d.as_millis() as u64,
        Err(_) => 0,
    }
}

} // verus!
