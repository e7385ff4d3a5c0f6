//! Day/second and year/month interval values and their canonical forms.

use vstd::arithmetic::div_mod::{
    lemma_div_pos_is_pos, lemma_fundamental_div_mod, lemma_fundamental_div_mod_converse,
};
use vstd::prelude::*;

verus! {

/// Oracle year-to-month interval data: a plain pair of 32-bit fields.
#[derive(Clone, Copy, Debug, Default, PartialEq, Eq, Structural)]
pub struct YearsMonths {
    /// The years in a YEARS TO MONTHS interval.
    pub years: i32,
    /// The months in a YEARS TO MONTHS interval.
    pub months: i32,
}

impl YearsMonths {
    /// Build the pair from its two fields.
    pub fn new(years: i32, months: i32) -> (r: Self)
        ensures
            r.years == years,
            r.months == months,
    {
        Self { years, months }
    }

    /// The years field.
    pub fn years(&self) -> (r: i32)
        ensures
            r == self.years,
    {
        self.years
    }

    /// The months field.
    pub fn months(&self) -> (r: i32)
        ensures
            r == self.months,
    {
        self.months
    }

    /// Replace the years field.
    pub fn set_years(&mut self, years: i32)
        ensures
            final(self).years == years,
            final(self).months == old(self).months,
    {
        self.years = years;
    }

    /// Replace the months field.
    pub fn set_months(&mut self, months: i32)
        ensures
            final(self).months == months,
            final(self).years == old(self).years,
    {
        self.months = months;
    }
}

/// The five narrow fields of a day-to-second interval as stored in a cell.
#[derive(Clone, Copy, Debug, Default, PartialEq, Eq, Structural)]
pub struct IntervalDS {
    /// Whole days.
    pub days: i32,
    /// Whole hours past the day boundary.
    pub hours: i32,
    /// Whole minutes past the hour boundary.
    pub minutes: i32,
    /// Whole seconds past the minute boundary.
    pub seconds: i32,
    /// Fractional seconds, in nanoseconds.
    pub fseconds: i32,
}

/// A canonical span of time: whole seconds plus a non-negative nanosecond
/// part below one second. Negative spans carry the sign on `secs`, so
/// `-1.5 s` is `secs == -2, nanos == 500_000_000`.
#[derive(Clone, Copy, Debug, Default, PartialEq, Eq, Structural)]
pub struct Duration {
    /// Whole seconds; the sign of the span.
    pub secs: i64,
    /// Nanoseconds past the whole second, always in `0 .. 1_000_000_000`.
    pub nanos: u32,
}

impl Duration {
    /// Well-formedness: the nanosecond part stays below one second.
    pub open spec fn wf(self) -> bool {
        self.nanos < 1_000_000_000
    }

    /// The whole span measured in nanoseconds.
    pub open spec fn total_nanos(self) -> int {
        self.secs * 1_000_000_000 + self.nanos
    }
}

/// The magnitude of the seconds of `d`, as a mathematical integer.
pub open spec fn secs_magnitude(d: Duration) -> int {
    vstd::math::abs(d.secs as int) as int
}

/// Whether the whole-day count of `d` fits the 32-bit `days` slot.
pub open spec fn duration_fits(d: Duration) -> bool {
    if d.secs >= 0 {
        secs_magnitude(d) / 86400 <= 0x7fff_ffff
    } else {
        secs_magnitude(d) / 86400 <= 0x8000_0000
    }
}

/// The narrow-field decomposition of a canonical span: the day / hour /
/// minute / second slots all take the sign of the span, the fractional
/// slot carries the nanoseconds unchanged.
pub open spec fn ds_of_duration(d: Duration) -> IntervalDS
    recommends
        d.wf(),
        duration_fits(d),
{
    let m = secs_magnitude(d);
    if d.secs >= 0 {
        IntervalDS {
            days: (m / 86400) as i32,
            hours: ((m % 86400) / 3600) as i32,
            minutes: (((m % 86400) % 3600) / 60) as i32,
            seconds: (((m % 86400) % 3600) % 60) as i32,
            fseconds: d.nanos as i32,
        }
    } else {
        IntervalDS {
            days: (-(m / 86400)) as i32,
            hours: (-((m % 86400) / 3600)) as i32,
            minutes: (-(((m % 86400) % 3600) / 60)) as i32,
            seconds: (-(((m % 86400) % 3600) % 60)) as i32,
            fseconds: d.nanos as i32,
        }
    }
}

/// The span named by five narrow interval fields, in nanoseconds.
pub open spec fn ds_total_nanos(i: IntervalDS) -> int {
    (86400 * i.days + 3600 * i.hours + 60 * i.minutes + i.seconds) * 1_000_000_000 + i.fseconds
}

/// The canonical span named by five narrow interval fields.
pub open spec fn duration_of_ds(i: IntervalDS) -> Duration {
    let t = ds_total_nanos(i);
    Duration { secs: (t / 1_000_000_000) as i64, nanos: (t % 1_000_000_000) as u32 }
}

/// The magnitude decomposition used by `ds_of_duration` adds back up to the
/// magnitude itself.
proof fn lemma_magnitude_decomposition(m: int)
    requires
        m >= 0,
    ensures
        86400 * (m / 86400) + 3600 * ((m % 86400) / 3600) + 60 * (((m % 86400) % 3600) / 60) + ((
        (m % 86400) % 3600) % 60) == m,
        0 <= m / 86400,
        0 <= (m % 86400) / 3600 < 24,
        0 <= ((m % 86400) % 3600) / 60 < 60,
        0 <= ((m % 86400) % 3600) % 60 < 60,
{
    lemma_div_pos_is_pos(m, 86400);
    lemma_fundamental_div_mod(m, 86400);
    lemma_fundamental_div_mod(m % 86400, 3600);
    lemma_fundamental_div_mod((m % 86400) % 3600, 60);
    assert(0 <= m % 86400 < 86400);
    assert(0 <= (m % 86400) % 3600 < 3600);
    assert((m % 86400) / 3600 < 24) by {
        if (m % 86400) / 3600 >= 24 {
            assert(m % 86400 == 3600 * ((m % 86400) / 3600) + (m % 86400) % 3600);
            assert(3600 * ((m % 86400) / 3600) >= 3600 * 24) by (nonlinear_arith)
                requires
                    (m % 86400) / 3600 >= 24,
            ;
        }
    }
    assert((m % 86400) / 3600 >= 0) by {
        if (m % 86400) / 3600 < 0 {
            assert(3600 * ((m % 86400) / 3600) <= 3600 * -1) by (nonlinear_arith)
                requires
                    (m % 86400) / 3600 <= -1,
            ;
        }
    }
    assert(((m % 86400) % 3600) / 60 < 60) by {
        if ((m % 86400) % 3600) / 60 >= 60 {
            assert(60 * (((m % 86400) % 3600) / 60) >= 60 * 60) by (nonlinear_arith)
                requires
                    ((m % 86400) % 3600) / 60 >= 60,
            ;
        }
    }
    assert(((m % 86400) % 3600) / 60 >= 0) by {
        if ((m % 86400) % 3600) / 60 < 0 {
            assert(60 * (((m % 86400) % 3600) / 60) <= 60 * -1) by (nonlinear_arith)
                requires
                    ((m % 86400) % 3600) / 60 <= -1,
            ;
        }
    }
}

/// The narrow fields written for a well-formed, in-range span name that very
/// span back: decomposing and re-summing is the identity.
///
/// This is the heart of the day/second round trip: `ds_total_nanos` of
/// `ds_of_duration(d)` is exactly `d.total_nanos()`, and re-canonicalizing
/// gives `d` itself.
pub proof fn lemma_duration_round_trip(d: Duration)
    requires
        d.wf(),
        duration_fits(d),
    ensures
        ds_total_nanos(ds_of_duration(d)) == d.total_nanos(),
        duration_of_ds(ds_of_duration(d)) == d,
{
    let m = secs_magnitude(d);
    lemma_magnitude_decomposition(m);
    let i = ds_of_duration(d);
    let q1 = m / 86400;
    let q2 = (m % 86400) / 3600;
    let q3 = ((m % 86400) % 3600) / 60;
    let q4 = ((m % 86400) % 3600) % 60;
    if d.secs >= 0 {
        assert(m == d.secs);
        assert(i.days == q1 && i.hours == q2 && i.minutes == q3 && i.seconds == q4);
        assert(86400 * i.days + 3600 * i.hours + 60 * i.minutes + i.seconds == d.secs);
    } else {
        assert(m == -(d.secs as int));
        assert(q1 <= 0x8000_0000);
        assert(i.days == -q1);
        assert(i.hours == -q2);
        assert(i.minutes == -q3);
        assert(i.seconds == -q4);
        assert(86400 * i.days + 3600 * i.hours + 60 * i.minutes + i.seconds == -m);
    }
    assert(ds_total_nanos(i) == d.total_nanos());
    let t = ds_total_nanos(i);
    lemma_fundamental_div_mod_converse(t, 1_000_000_000, d.secs as int, d.nanos as int);
    assert(duration_of_ds(i) == d);
}

} // verus!
