use vstd::prelude::*;

verus! {

/// `DateTime::<Utc>::from(SystemTime::now()).timestamp_millis()` of `chrono`: the time
/// of the system clock, in milliseconds since the Unix epoch (negative for a clock set
/// before it). Nothing is stated of its value; it is the clock's, and two calls may
/// give anything. `chrono` panics only for a clock beyond the range of years it
/// represents (some 262,000 years either side of the epoch), which no argument here
/// can rule out.
#[verifier::external_body]
pub(crate) fn now_millis() -> i64 {
    chrono::DateTime::<chrono::Utc>::from(std::time::SystemTime::now()).timestamp_millis()
}

} // verus!
