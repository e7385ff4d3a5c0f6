use mimir::{Data, DataBuffer, Duration, Error, IntervalDS, Timestamp, TimestampFields, YearsMonths};

fn fresh_cell() -> Data {
    Data::new(false, DataBuffer::Int64(0))
}

#[test]
fn bytes_round_trip() {
    let mut d = fresh_cell();
    d.set_bytes(&[1u8, 2, 3, 255]).unwrap();
    assert_eq!(d.get_bytes(), vec![1u8, 2, 3, 255]);
}

#[test]
fn bytes_round_trip_empty() {
    let mut d = fresh_cell();
    d.set_bytes(&[]).unwrap();
    assert_eq!(d.get_bytes(), Vec::<u8>::new());
}

#[test]
fn bytes_get_returns_owned_copy() {
    let mut d = fresh_cell();
    d.set_bytes(&[9u8, 8]).unwrap();
    let mut copy = d.get_bytes();
    copy[0] = 0;
    assert_eq!(d.get_bytes(), vec![9u8, 8]);
}

#[test]
fn string_round_trip() {
    let mut d = fresh_cell();
    d.set_string("jozias").unwrap();
    assert_eq!(d.get_string(), "jozias");
}

#[test]
fn string_round_trip_multibyte() {
    let mut d = fresh_cell();
    d.set_string("héllo ∀ømegä").unwrap();
    assert_eq!(d.get_string(), "héllo ∀ømegä");
}

#[test]
fn string_round_trip_empty() {
    let mut d = fresh_cell();
    d.set_string("").unwrap();
    assert_eq!(d.get_string(), "");
}

#[test]
fn string_decoding_substitutes_invalid_utf8() {
    let d = Data::new(false, DataBuffer::Bytes(vec![0xff, 0x61]));
    assert_eq!(d.get_string(), "\u{FFFD}a");
}

#[test]
fn boolean_round_trip() {
    let mut d = fresh_cell();
    d.set_boolean(true);
    assert!(d.get_boolean());
    d.set_boolean(false);
    assert!(!d.get_boolean());
}

#[test]
fn int64_round_trip() {
    let mut d = fresh_cell();
    d.set_int64(-42);
    assert_eq!(d.get_int64(), -42);
    d.set_int64(i64::MIN);
    assert_eq!(d.get_int64(), i64::MIN);
}

#[test]
fn uint64_round_trip() {
    let mut d = fresh_cell();
    d.set_uint64(u64::MAX);
    assert_eq!(d.get_uint64(), u64::MAX);
}

#[test]
fn double_bits_round_trip() {
    let mut d = fresh_cell();
    let bits = (3.5f64).to_bits();
    d.set_double_bits(bits);
    assert_eq!(f64::from_bits(d.get_double_bits()), 3.5);
}

#[test]
fn float_bits_round_trip() {
    let mut d = fresh_cell();
    let bits = (1.25f32).to_bits();
    d.set_float_bits(bits);
    assert_eq!(f32::from_bits(d.get_float_bits()), 1.25);
}

#[test]
fn handle_round_trips() {
    let mut d = fresh_cell();
    d.set_lob(0xdead);
    assert_eq!(d.get_lob(), 0xdead);
    d.set_object(0xbeef);
    assert_eq!(d.get_object(), 0xbeef);
    d.set_stmt(0xf00d);
    assert_eq!(d.get_stmt(), 0xf00d);
}

#[test]
fn years_months_round_trip() {
    let mut d = fresh_cell();
    d.set_years_months(YearsMonths::new(5, 11));
    let ym = d.get_years_months();
    assert_eq!(ym.years(), 5);
    assert_eq!(ym.months(), 11);
}

#[test]
fn years_months_negative_round_trip() {
    let mut d = fresh_cell();
    let mut ym = YearsMonths::new(0, 0);
    ym.set_years(-3);
    ym.set_months(-7);
    d.set_years_months(ym);
    assert_eq!(d.get_years_months(), YearsMonths::new(-3, -7));
}

#[test]
fn mismatched_getters_return_sentinels() {
    let d = Data::new(false, DataBuffer::Int64(77));
    assert_eq!(d.get_bytes(), Vec::<u8>::new());
    assert_eq!(d.get_string(), "");
    assert!(!d.get_boolean());
    assert_eq!(d.get_uint64(), 0);
    assert_eq!(d.get_double_bits(), 0);
    assert_eq!(d.get_float_bits(), 0);
    assert_eq!(d.get_lob(), 0);
    assert_eq!(d.get_object(), 0);
    assert_eq!(d.get_stmt(), 0);
    assert_eq!(d.get_years_months(), YearsMonths::new(0, 0));
    assert_eq!(d.get_duration(), Duration { secs: 0, nanos: 0 });
    let b = Data::new(false, DataBuffer::Boolean(true));
    assert_eq!(b.get_int64(), 0);
}

#[test]
fn absence_set_at_construction() {
    let absent = Data::new(true, DataBuffer::Int64(5));
    assert!(absent.null());
    let present = Data::new(false, DataBuffer::Int64(5));
    assert!(!present.null());
}

#[test]
fn absence_survives_every_mutator() {
    let mut d = Data::new(true, DataBuffer::Int64(5));
    d.set_boolean(true);
    assert!(d.null());
    d.set_bytes(&[1u8]).unwrap();
    assert!(d.null());
    d.set_string("x").unwrap();
    assert!(d.null());
    d.set_int64(9);
    assert!(d.null());
    d.set_uint64(9);
    assert!(d.null());
    d.set_double_bits(1);
    assert!(d.null());
    d.set_float_bits(1);
    assert!(d.null());
    d.set_lob(1);
    assert!(d.null());
    d.set_object(1);
    assert!(d.null());
    d.set_stmt(1);
    assert!(d.null());
    d.set_years_months(YearsMonths::new(1, 2));
    assert!(d.null());
    d.set_duration(Duration { secs: 60, nanos: 0 }).unwrap();
    assert!(d.null());
    d.set_utc(Timestamp { year: 2000, month: 1, day: 1, hour: 0, minute: 0, second: 0, nanosecond: 0 })
        .unwrap();
    assert!(d.null());
    assert_eq!(d.get_int64(), 0);
    assert!(d.null());
}

#[test]
fn absence_survives_misdirected_getters() {
    let d = Data::new(true, DataBuffer::Bytes(vec![1, 2]));
    let _ = d.get_int64();
    let _ = d.get_string();
    let _ = d.get_duration();
    assert!(d.null());
}

#[test]
fn inner_borrows_payload() {
    let d = Data::new(false, DataBuffer::IntervalDS(IntervalDS {
        days: 1,
        hours: 2,
        minutes: 3,
        seconds: 4,
        fseconds: 5,
    }));
    match d.inner() {
        DataBuffer::IntervalDS(i) => {
            assert_eq!(i.days, 1);
            assert_eq!(i.fseconds, 5);
        }
        _ => panic!("wrong variant"),
    }
}

#[test]
fn set_bytes_never_overflows_on_small_input() {
    let mut d = fresh_cell();
    assert!(d.set_bytes(&[0u8; 64]).is_ok());
    assert!(d.set_string("short").is_ok());
}

#[test]
fn timestamp_fields_default_is_zero() {
    let f = TimestampFields::default();
    assert_eq!(f.year, 0);
    assert_eq!(f.month, 0);
    assert_eq!(f.fsecond, 0);
}

#[test]
fn error_text_is_stable() {
    assert_eq!(Error::Overflow.text(), "value does not fit in the native field");
    assert_eq!(Error::Length.text(), "no textual rendering for this wire type");
}
