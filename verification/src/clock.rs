//! Reading the current time.
//!
//! The clock is the one external value the core consumes that is neither
//! an answer from the command runner nor an argument: the creation time
//! embedded in a new snapshot's name. The raw reading is taken on trust
//! from the clock library; everything after it — widening, clamping to
//! the four-digit calendar, packing into a [`Timestamp`] — is verified.

use crate::timestamp::Timestamp;
use vstd::prelude::*;

verus! {

/// A broken-down clock reading, exactly as the clock library hands the
/// fields out.
pub struct RawTime {
    pub years_since_1900: i32,
    pub month0: i32,
    pub day: i32,
    pub hour: i32,
    pub minute: i32,
    pub second: i32,
}

/// Relies on time::now_utc: a broken-down UTC time whose fields lie in
/// the library's documented ranges — months since January in 0..=11, day
/// of month in 1..=31, hour in 0..=23, minute in 0..=59, second in 0..=60
/// counting a possible leap second. Nothing is assumed of the year, and
/// nothing relates one reading to the next.
#[verifier::external_body]
fn now_utc_raw() -> (r: RawTime)
    ensures
        0 <= r.month0 <= 11,
        1 <= r.day <= 31,
        0 <= r.hour <= 23,
        0 <= r.minute <= 59,
        0 <= r.second <= 60,
{
    let tm = time::now_utc();
    RawTime {
        years_since_1900: tm.tm_year,
        month0: tm.tm_mon,
        day: tm.tm_mday,
        hour: tm.tm_hour,
        minute: tm.tm_min,
        second: tm.tm_sec,
    }
}

/// The clock's current UTC time as a well-formed timestamp: month counted
/// from one, year clamped into the four-digit calendar the textual form
/// can spell, every other field in its calendar range as the clock
/// reported it.
pub fn timestamp_now() -> (t: Timestamp)
    ensures
        t.wf(),
        t.year <= 9999,
        1 <= t.month <= 12,
        1 <= t.day <= 31,
        t.hour <= 23,
        t.minute <= 59,
        t.second <= 60,
{
    let raw = now_utc_raw();
    let year_wide: i64 = 1900i64 + raw.years_since_1900 as i64;
    let year: u32 = if year_wide < 0i64 {
        0u32
    } else if year_wide > 9999i64 {
        9999u32
    } else {
        year_wide as u32
    };
    Timestamp {
        year,
        month: (raw.month0 + 1) as u32,
        day: raw.day as u32,
        hour: raw.hour as u32,
        minute: raw.minute as u32,
        second: raw.second as u32,
    }
}

} // verus!
