//! The wall clock.
use vstd::prelude::*;

verus! {

/// `std::time::SystemTime::duration_since` from the Unix epoch to now, in whole
/// milliseconds; nothing for a clock set before the epoch. What it returns depends
/// on the clock, so nothing is claimed of it.
#[verifier::external_body]
fn since_epoch() -> (res: Option<u128>) {
    let now = std::time::SystemTime::now();
    now.duration_since(std::time::SystemTime::UNIX_EPOCH).ok().map(|d| d.as_millis())
}

/// The low 64 bits of `ms`.
pub open spec fn low_bits(ms: u128) -> u64 {
    (ms % 0x1_0000_0000_0000_0000) as u64
}

/// The time stamp of a clock reading: its milliseconds in 64 bits, or zero without
/// one.
pub fn stamp(reading: Option<u128>) -> (res: u64)
    ensures
        res == match reading {
            Some(ms) => low_bits(ms),
            None => 0u64,
        },
{
    match reading {
        Some(ms) => (ms % 0x1_0000_0000_0000_0000) as u64,
        None => 0,
    }
}

/// The milliseconds since the Unix epoch, or zero for a clock set before it.
pub fn now_ms() -> u64 {
    stamp(since_epoch())
}

/// A reading that fits is kept as it is, and the stamp comes round every two to the
/// sixty-fourth.
pub proof fn law_stamps_come_round(ms: u128)
    ensures
        ms < 0x1_0000_0000_0000_0000 ==> low_bits(ms) == ms,
        ms >= 0x1_0000_0000_0000_0000 ==> low_bits(ms) == low_bits(
            (ms - 0x1_0000_0000_0000_0000) as u128,
        ),
{
}

} // verus!
