use chrono::TimeZone;
use hex_slice::AsHex;
use mimir::{
    Data, DataBuffer, DataTypeInfo, Error, NativeTypeNum, OracleTypeNum, Timestamp, TimestampFields,
    TypeInfo,
};

fn descriptor(oracle: OracleTypeNum, native: NativeTypeNum) -> TypeInfo {
    TypeInfo::new(DataTypeInfo {
        oracle_type_num: oracle,
        default_native_type_num: native,
        db_size_in_bytes: 0,
        client_size_in_bytes: 0,
        size_in_chars: 0,
        precision: 0,
        scale: 0,
        object_type: 0,
    })
}

#[test]
fn display_numeric_cell() {
    let d = Data::new(false, DataBuffer::Double((3.5f64).to_bits()));
    let ti = descriptor(OracleTypeNum::Number, NativeTypeNum::Double);
    assert_eq!(d.to_string(&ti).unwrap(), "3.5");
}

#[test]
fn display_character_cell() {
    let mut d = Data::new(false, DataBuffer::Int64(0));
    d.set_string("abc").unwrap();
    let ti = descriptor(OracleTypeNum::Varchar, NativeTypeNum::Bytes);
    assert_eq!(d.to_string(&ti).unwrap(), "abc");
    let ti2 = descriptor(OracleTypeNum::Char, NativeTypeNum::Bytes);
    assert_eq!(d.to_string(&ti2).unwrap(), "abc");
}

#[test]
fn display_absent_cell() {
    let d = Data::new(true, DataBuffer::Double((3.5f64).to_bits()));
    for oracle in [
        OracleTypeNum::Number,
        OracleTypeNum::Varchar,
        OracleTypeNum::Object,
        OracleTypeNum::Raw,
        OracleTypeNum::Boolean,
    ] {
        let ti = descriptor(oracle, NativeTypeNum::Double);
        assert_eq!(d.to_string(&ti).unwrap(), "(null)");
    }
}

#[test]
fn display_object_cell_is_unsupported() {
    let d = Data::new(false, DataBuffer::Object(7));
    let ti = descriptor(OracleTypeNum::Object, NativeTypeNum::Object);
    assert_eq!(d.to_string(&ti), Err(Error::Length));
}

#[test]
fn display_unsupported_wire_types() {
    let d = Data::new(false, DataBuffer::Boolean(true));
    for oracle in [
        OracleTypeNum::Boolean,
        OracleTypeNum::Blob,
        OracleTypeNum::IntervalDs,
        OracleTypeNum::Stmt,
        OracleTypeNum::TypeNone,
    ] {
        let ti = descriptor(oracle, NativeTypeNum::Boolean);
        assert_eq!(d.to_string(&ti), Err(Error::Length));
    }
}

#[test]
fn display_raw_cell_lowercase_hex() {
    let mut d = Data::new(false, DataBuffer::Int64(0));
    d.set_bytes(&[0x00, 0x1f, 0xab, 0xff]).unwrap();
    let ti = descriptor(OracleTypeNum::Raw, NativeTypeNum::Bytes);
    assert_eq!(d.to_string(&ti).unwrap(), "001fabff");
}

#[test]
fn display_raw_cell_empty() {
    let mut d = Data::new(false, DataBuffer::Int64(0));
    d.set_bytes(&[]).unwrap();
    let ti = descriptor(OracleTypeNum::Raw, NativeTypeNum::Bytes);
    assert_eq!(d.to_string(&ti).unwrap(), "");
}

#[test]
fn display_date_cell() {
    let mut d = Data::new(false, DataBuffer::Int64(0));
    d.set_utc(Timestamp { year: 2017, month: 4, day: 6, hour: 2, minute: 11, second: 1, nanosecond: 0 })
        .unwrap();
    let ti = descriptor(OracleTypeNum::Date, NativeTypeNum::Timestamp);
    assert_eq!(d.to_string(&ti).unwrap(), "2017-04-06T02:11:01+00:00");
}

#[test]
fn display_date_cell_with_fraction() {
    let mut d = Data::new(false, DataBuffer::Int64(0));
    d.set_utc(Timestamp {
        year: 2017,
        month: 4,
        day: 6,
        hour: 2,
        minute: 11,
        second: 1,
        nanosecond: 123_456_789,
    })
    .unwrap();
    let ti = descriptor(OracleTypeNum::Date, NativeTypeNum::Timestamp);
    assert_eq!(d.to_string(&ti).unwrap(), "2017-04-06T02:11:01.123456789+00:00");
}

#[test]
fn display_date_matches_chrono() {
    let mut d = Data::new(false, DataBuffer::Int64(0));
    d.set_utc(Timestamp { year: 1996, month: 12, day: 19, hour: 16, minute: 39, second: 57, nanosecond: 0 })
        .unwrap();
    let ti = descriptor(OracleTypeNum::Date, NativeTypeNum::Timestamp);
    let expected = chrono::Utc
        .with_ymd_and_hms(1996, 12, 19, 16, 39, 57)
        .unwrap()
        .to_rfc3339();
    assert_eq!(d.to_string(&ti).unwrap(), expected);
}

#[test]
fn display_date_leap_day() {
    let mut d = Data::new(false, DataBuffer::Int64(0));
    d.set_utc(Timestamp { year: 2000, month: 2, day: 29, hour: 0, minute: 0, second: 0, nanosecond: 0 })
        .unwrap();
    let ti = descriptor(OracleTypeNum::Date, NativeTypeNum::Timestamp);
    assert_eq!(d.to_string(&ti).unwrap(), "2000-02-29T00:00:00+00:00");
}

#[test]
fn display_date_invalid_fields_overflow() {
    // month 13 fits the narrow field but names no calendar month
    let d = Data::new(false, DataBuffer::Timestamp(TimestampFields {
        year: 2000,
        month: 13,
        day: 1,
        hour: 0,
        minute: 0,
        second: 0,
        fsecond: 0,
    }));
    let ti = descriptor(OracleTypeNum::Date, NativeTypeNum::Timestamp);
    assert_eq!(d.to_string(&ti), Err(Error::Overflow));
    // 1900 was not a leap year
    let d2 = Data::new(false, DataBuffer::Timestamp(TimestampFields {
        year: 1900,
        month: 2,
        day: 29,
        hour: 0,
        minute: 0,
        second: 0,
        fsecond: 0,
    }));
    assert_eq!(d2.to_string(&ti), Err(Error::Overflow));
}

#[test]
fn display_length_matches_byte_length() {
    let cases: Vec<(Data, TypeInfo)> = vec![
        (
            Data::new(false, DataBuffer::Double((3.5f64).to_bits())),
            descriptor(OracleTypeNum::Number, NativeTypeNum::Double),
        ),
        (
            Data::new(false, DataBuffer::Bytes("abc".as_bytes().to_vec())),
            descriptor(OracleTypeNum::Varchar, NativeTypeNum::Bytes),
        ),
        (
            Data::new(false, DataBuffer::Bytes("héllo ∀".as_bytes().to_vec())),
            descriptor(OracleTypeNum::Char, NativeTypeNum::Bytes),
        ),
        (
            Data::new(false, DataBuffer::Bytes(vec![0xab, 0xcd])),
            descriptor(OracleTypeNum::Raw, NativeTypeNum::Bytes),
        ),
        (
            Data::new(true, DataBuffer::Int64(0)),
            descriptor(OracleTypeNum::Number, NativeTypeNum::Int64),
        ),
    ];
    for (d, ti) in cases {
        let text = d.to_string(&ti).unwrap();
        assert_eq!(d.len(&ti).unwrap(), text.len());
    }
}

#[test]
fn display_length_multibyte_counts_bytes_not_chars() {
    let d = Data::new(false, DataBuffer::Bytes("é∀".as_bytes().to_vec()));
    let ti = descriptor(OracleTypeNum::Varchar, NativeTypeNum::Bytes);
    assert_eq!(d.len(&ti).unwrap(), 5);
}

#[test]
fn display_length_propagates_errors() {
    let d = Data::new(false, DataBuffer::Object(7));
    let ti = descriptor(OracleTypeNum::Object, NativeTypeNum::Object);
    assert_eq!(d.len(&ti), Err(Error::Length));
}

#[test]
fn raw_rendering_matches_per_byte_hex() {
    // hex_slice writes each byte with `{:x}` and no padding, so the two
    // renderings agree exactly on bytes of two hex digits
    let bytes = [0x10u8, 0xab, 0xff, 0x7e];
    let mut d = Data::new(false, DataBuffer::Int64(0));
    d.set_bytes(&bytes).unwrap();
    let ti = descriptor(OracleTypeNum::Raw, NativeTypeNum::Bytes);
    assert_eq!(d.to_string(&ti).unwrap(), format!("{:x}", bytes.plain_hex(false)));
}

#[test]
fn numeric_rendering_special_values() {
    let ti = descriptor(OracleTypeNum::Number, NativeTypeNum::Double);
    let cases: Vec<(f64, &str)> = vec![
        (0.0, "0"),
        (-0.0, "-0"),
        (1.0, "1"),
        (100.0, "100"),
        (0.25, "0.25"),
        (-2.5, "-2.5"),
        (1e22, "10000000000000000000000"),
        (f64::INFINITY, "inf"),
        (f64::NEG_INFINITY, "-inf"),
        (f64::NAN, "NaN"),
    ];
    for (value, expected) in cases {
        let d = Data::new(false, DataBuffer::Double(value.to_bits()));
        assert_eq!(d.to_string(&ti).unwrap(), expected, "for {value}");
    }
}

#[test]
fn numeric_rendering_is_exact_expansion() {
    let ti = descriptor(OracleTypeNum::Number, NativeTypeNum::Double);
    let d = Data::new(false, DataBuffer::Double((0.1f64).to_bits()));
    assert_eq!(
        d.to_string(&ti).unwrap(),
        "0.1000000000000000055511151231257827021181583404541015625"
    );
    let tiny = Data::new(false, DataBuffer::Double(1u64));
    let text = tiny.to_string(&ti).unwrap();
    assert!(text.starts_with("0.00000000000000000000000000000000000000000000000000000000000000000000000000000000000000000000000000000000000000000000000000000000000000000000000000000000000000000000000000000000000000000000000000000000000000000000000000000000000000000000000000000000000000000000000000000000000000000000000000000000000000000000000000000000000494065645841246544"));
    assert!(text.ends_with("65625"));
}
