use mimir::{Data, DataBuffer, Duration, Error, IntervalDS, Timestamp};

fn fresh_cell() -> Data {
    Data::new(false, DataBuffer::Int64(0))
}

#[test]
fn duration_round_trip_simple() {
    let mut d = fresh_cell();
    let span = Duration { secs: 93784, nanos: 123 };
    d.set_duration(span).unwrap();
    assert_eq!(d.get_duration(), span);
    match d.inner() {
        DataBuffer::IntervalDS(i) => {
            assert_eq!(*i, IntervalDS { days: 1, hours: 2, minutes: 3, seconds: 4, fseconds: 123 });
        }
        _ => panic!("wrong variant"),
    }
}

#[test]
fn duration_round_trip_negative() {
    let mut d = fresh_cell();
    let span = Duration { secs: -93785, nanos: 500_000_000 };
    d.set_duration(span).unwrap();
    assert_eq!(d.get_duration(), span);
}

#[test]
fn duration_round_trip_zero() {
    let mut d = fresh_cell();
    let span = Duration { secs: 0, nanos: 0 };
    d.set_duration(span).unwrap();
    assert_eq!(d.get_duration(), span);
}

#[test]
fn duration_round_trip_sub_second_negative() {
    // -0.25 s in canonical form: -1 whole second plus 750 ms.
    let mut d = fresh_cell();
    let span = Duration { secs: -1, nanos: 750_000_000 };
    d.set_duration(span).unwrap();
    assert_eq!(d.get_duration(), span);
}

#[test]
fn duration_round_trip_day_boundaries() {
    let mut d = fresh_cell();
    let max_days = Duration { secs: 2_147_483_647i64 * 86_400 + 86_399, nanos: 999_999_999 };
    d.set_duration(max_days).unwrap();
    assert_eq!(d.get_duration(), max_days);
    let min_days = Duration { secs: -2_147_483_648i64 * 86_400, nanos: 0 };
    d.set_duration(min_days).unwrap();
    assert_eq!(d.get_duration(), min_days);
}

#[test]
fn duration_overflow_too_many_days() {
    let mut d = fresh_cell();
    let before = Duration { secs: 1, nanos: 0 };
    d.set_duration(before).unwrap();
    let too_big = Duration { secs: 2_147_483_648i64 * 86_400, nanos: 0 };
    assert_eq!(d.set_duration(too_big), Err(Error::Overflow));
    // the cell keeps its previous payload
    assert_eq!(d.get_duration(), before);
    let too_small = Duration { secs: -2_147_483_649i64 * 86_400, nanos: 0 };
    assert_eq!(d.set_duration(too_small), Err(Error::Overflow));
}

#[test]
fn duration_reads_raw_interval_fields() {
    let d = Data::new(false, DataBuffer::IntervalDS(IntervalDS {
        days: 0,
        hours: 0,
        minutes: 0,
        seconds: 2,
        fseconds: -500_000_000,
    }));
    // 2 s minus 0.5 s, canonicalized
    assert_eq!(d.get_duration(), Duration { secs: 1, nanos: 500_000_000 });
}

#[test]
fn timestamp_round_trip() {
    let mut d = fresh_cell();
    let t = Timestamp { year: 2017, month: 4, day: 6, hour: 2, minute: 11, second: 1, nanosecond: 123 };
    d.set_utc(t).unwrap();
    assert_eq!(d.get_utc(), t);
}

#[test]
fn timestamp_round_trip_negative_year() {
    let mut d = fresh_cell();
    let t = Timestamp { year: -44, month: 3, day: 15, hour: 12, minute: 0, second: 0, nanosecond: 0 };
    d.set_utc(t).unwrap();
    assert_eq!(d.get_utc(), t);
}

#[test]
fn timestamp_overflow_year() {
    let mut d = fresh_cell();
    let t = Timestamp { year: 40000, month: 1, day: 1, hour: 0, minute: 0, second: 0, nanosecond: 0 };
    assert_eq!(d.set_utc(t), Err(Error::Overflow));
    let t2 = Timestamp { year: -40000, month: 1, day: 1, hour: 0, minute: 0, second: 0, nanosecond: 0 };
    assert_eq!(d.set_utc(t2), Err(Error::Overflow));
}

#[test]
fn timestamp_overflow_wide_field() {
    let mut d = fresh_cell();
    let t = Timestamp { year: 2000, month: 300, day: 1, hour: 0, minute: 0, second: 0, nanosecond: 0 };
    assert_eq!(d.set_utc(t), Err(Error::Overflow));
}

#[test]
fn timestamp_boundary_year_fits() {
    let mut d = fresh_cell();
    let t = Timestamp { year: 32767, month: 12, day: 31, hour: 23, minute: 59, second: 59, nanosecond: 1 };
    d.set_utc(t).unwrap();
    assert_eq!(d.get_utc(), t);
    let t2 = Timestamp { year: -32768, month: 1, day: 1, hour: 0, minute: 0, second: 0, nanosecond: 0 };
    d.set_utc(t2).unwrap();
    assert_eq!(d.get_utc(), t2);
}
