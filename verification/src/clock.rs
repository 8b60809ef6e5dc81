use vstd::prelude::*;

verus! {

/// Seconds since the Unix epoch, as read from the system clock
/// (`std::time::SystemTime::now`); a clock set before the epoch reads 0.
///
/// Nothing is promised of the value: it depends on the machine's clock, and
/// two calls may return anything, in any order.
#[verifier::external_body]
pub fn now_secs() -> u64 {
    std::time::SystemTime::now().duration_since(std::time::UNIX_EPOCH).unwrap_or_default().as_secs()
}

} // verus!
