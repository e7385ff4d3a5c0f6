//! Calendar timestamps: the narrow cell fields, the wide calendar value,
//! calendar validity, and the ISO-8601 rendering.

use vstd::arithmetic::div_mod::lemma_mod_multiples_vanish;
use vstd::prelude::*;

verus! {

/// The narrow timestamp fields as stored in a cell.
#[derive(Clone, Copy, Debug, Default, PartialEq, Eq, Structural)]
pub struct TimestampFields {
    /// The year, as a 16-bit signed field.
    pub year: i16,
    /// The month, 1 through 12 for a valid date.
    pub month: u8,
    /// The day of the month, 1 through 31 for a valid date.
    pub day: u8,
    /// The hour, 0 through 23 for a valid time.
    pub hour: u8,
    /// The minute, 0 through 59 for a valid time.
    pub minute: u8,
    /// The second, 0 through 59 for a valid time.
    pub second: u8,
    /// The fractional second, in nanoseconds.
    pub fsecond: u32,
}

/// A calendar timestamp with fields at their full working widths.
#[derive(Clone, Copy, Debug, Default, PartialEq, Eq, Structural)]
pub struct Timestamp {
    /// The proleptic Gregorian year; year 0 is 1 BCE.
    pub year: i32,
    /// The month, 1 through 12 for a valid date.
    pub month: u32,
    /// The day of the month.
    pub day: u32,
    /// The hour.
    pub hour: u32,
    /// The minute.
    pub minute: u32,
    /// The second.
    pub second: u32,
    /// Nanoseconds past the whole second.
    pub nanosecond: u32,
}

/// Whether every field of `t` fits its narrow cell slot.
pub open spec fn timestamp_fits(t: Timestamp) -> bool {
    &&& -0x8000 <= t.year <= 0x7fff
    &&& t.month <= 0xff
    &&& t.day <= 0xff
    &&& t.hour <= 0xff
    &&& t.minute <= 0xff
    &&& t.second <= 0xff
}

/// The narrow decomposition of an in-range calendar timestamp.
pub open spec fn fields_of_timestamp(t: Timestamp) -> TimestampFields
    recommends
        timestamp_fits(t),
{
    TimestampFields {
        year: t.year as i16,
        month: t.month as u8,
        day: t.day as u8,
        hour: t.hour as u8,
        minute: t.minute as u8,
        second: t.second as u8,
        fsecond: t.nanosecond,
    }
}

/// The calendar timestamp named by narrow cell fields.
pub open spec fn timestamp_of_fields(f: TimestampFields) -> Timestamp {
    Timestamp {
        year: f.year as i32,
        month: f.month as u32,
        day: f.day as u32,
        hour: f.hour as u32,
        minute: f.minute as u32,
        second: f.second as u32,
        nanosecond: f.fsecond,
    }
}

/// Narrowing an in-range timestamp into cell fields and widening them again
/// is the identity.
pub proof fn lemma_timestamp_round_trip(t: Timestamp)
    requires
        timestamp_fits(t),
    ensures
        timestamp_of_fields(fields_of_timestamp(t)) == t,
{
}

/// Whether `y` is a leap year of the proleptic Gregorian calendar.
pub open spec fn is_leap_year(y: int) -> bool {
    (y % 4 == 0 && y % 100 != 0) || y % 400 == 0
}

/// The number of days in month `m` of year `y`; zero for a month outside
/// 1 through 12.
pub open spec fn days_in_month(y: int, m: int) -> int {
    if m == 1 || m == 3 || m == 5 || m == 7 || m == 8 || m == 10 || m == 12 {
        31
    } else if m == 4 || m == 6 || m == 9 || m == 11 {
        30
    } else if m == 2 {
        if is_leap_year(y) {
            29
        } else {
            28
        }
    } else {
        0
    }
}

/// Whether `t` names a real calendar date and time of day, with the
/// nanosecond part below one second.
pub open spec fn renderable_timestamp(t: Timestamp) -> bool {
    &&& 1 <= t.month <= 12
    &&& 1 <= t.day <= days_in_month(t.year as int, t.month as int)
    &&& t.hour < 24
    &&& t.minute < 60
    &&& t.second < 60
    &&& t.nanosecond < 1_000_000_000
}

/// Decide `is_leap_year` for any 32-bit year.
///
/// The year is shifted by a positive multiple of 400 before the remainder
/// tests, so that only non-negative arithmetic is needed.
pub fn leap_year(y: i32) -> (r: bool)
    ensures
        r == is_leap_year(y as int),
{
    let shifted: u64 = (y as i64 + 2_400_000_000i64) as u64;
    proof {
        lemma_mod_multiples_vanish(6_000_000, y as int, 400);
        lemma_mod_multiples_vanish(24_000_000, y as int, 100);
        lemma_mod_multiples_vanish(600_000_000, y as int, 4);
    }
    (shifted % 4 == 0 && shifted % 100 != 0) || shifted % 400 == 0
}

/// Decide `renderable_timestamp`.
pub fn timestamp_renderable(t: &Timestamp) -> (r: bool)
    ensures
        r == renderable_timestamp(*t),
{
    if !(1 <= t.month && t.month <= 12) {
        return false;
    }
    if !(t.hour < 24 && t.minute < 60 && t.second < 60 && t.nanosecond < 1_000_000_000) {
        return false;
    }
    let dim: u32 = match t.month {
        1 | 3 | 5 | 7 | 8 | 10 | 12 => 31,
        4 | 6 | 9 | 11 => 30,
        _ => {
            if leap_year(t.year) {
                29
            } else {
                28
            }
        },
    };
    1 <= t.day && t.day <= dim
}

pub uninterp spec fn rfc3339_of(
    y: i32,
    mo: u32,
    d: u32,
    h: u32,
    mi: u32,
    s: u32,
    ns: u32,
) -> Seq<char>;

/// Relies on chrono: `Utc.with_ymd_and_hms` and `Timelike::with_nanosecond`
/// build the UTC timestamp (both accept exactly the valid calendar values
/// this function requires), and `DateTime::to_rfc3339` renders it; the text
/// depends on the seven fields alone.
#[verifier::external_body]
pub(crate) fn render_rfc3339(t: &Timestamp) -> (r: String)
    requires
        renderable_timestamp(*t),
        -0x8000 <= t.year <= 0x7fff,
    ensures
        r@ == rfc3339_of(t.year, t.month, t.day, t.hour, t.minute, t.second, t.nanosecond),
{
    let dt = chrono::TimeZone::with_ymd_and_hms(
        &chrono::Utc,
        t.year,
        t.month,
        t.day,
        t.hour,
        t.minute,
        t.second,
    )
        .unwrap();
    let dt = chrono::Timelike::with_nanosecond(&dt, t.nanosecond).unwrap();
    dt.to_rfc3339()
}

} // verus!
