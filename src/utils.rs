use vstd::prelude::*;

pub use crate::difficulty::format_difficulty;

verus! {

/// Relies on std::time::SystemTime::elapsed, from the Unix epoch: the
/// milliseconds since then, or zero should the clock stand before it.
/// Nothing is promised of the value.
#[verifier::external_body]
pub fn now() -> u128 {
    match std::time::UNIX_EPOCH.elapsed() {
        Ok(d) => d.as_millis(),
        Err(_) => 0,
    }
}

} // verus!
