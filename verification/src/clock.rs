//! Wallclock access.
use vstd::prelude::*;

verus! {

/// Whole milliseconds from the unix epoch to `std::time::SystemTime::now()`
/// (`duration_since(UNIX_EPOCH)`, then `Duration::as_millis`); `None` when
/// the system clock reads before the epoch. The value depends on the clock,
/// so nothing else is claimed of it.
#[verifier::external_body]
pub(crate) fn millis_since_epoch() -> (r: Option<u128>) {
    std::time::SystemTime::now().duration_since(std::time::UNIX_EPOCH).ok().map(|d| d.as_millis())
}

/// Unix milliseconds of a clock reading: 0 for a clock before the epoch,
/// `i64::MAX` past the end of the `i64` range, else the reading itself.
pub open spec fn unix_ms_of(reading: Option<u128>) -> i64 {
    match reading {
        None => 0,
        Some(ms) => if ms > 0x7fff_ffff_ffff_ffffu128 {
            i64::MAX
        } else {
            ms as i64
        },
    }
}

/// Convert a clock reading (see [`unix_ms_of`]).
pub fn unix_ms_from_reading(reading: Option<u128>) -> (t: i64)
    ensures
        t == unix_ms_of(reading),
        t >= 0,
{
    match reading {
        Some(ms) => if ms > 0x7fff_ffff_ffff_ffffu128 {
            i64::MAX
        } else {
            ms as i64
        },
        None => 0,
    }
}

/// Milliseconds since the unix epoch, read from the system clock and
/// converted by [`unix_ms_from_reading`]. The reading depends on the clock,
/// so only what holds of every reading is stated.
pub(crate) fn now_unix_ms() -> (t: i64)
    ensures
        t >= 0,
{
    unix_ms_from_reading(millis_since_epoch())
}

} // verus!
