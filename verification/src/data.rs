//! The value cell: one absence flag plus one payload variant, read and
//! written through typed accessors keyed by the paired descriptor.

use vstd::prelude::*;
use vstd::slice::slice_to_vec;
use vstd::utf8::encode_utf8;

use crate::decimal::{double_string, double_text};
use crate::enums::OracleTypeNum;
use crate::error::Error;
use crate::interval::{ds_of_duration, duration_of_ds, duration_fits, Duration, IntervalDS,
    YearsMonths};
use crate::text::{decode_bytes, decoded_text, hex_string, hex_text};
use crate::timestamp::{fields_of_timestamp, render_rfc3339, renderable_timestamp, rfc3339_of,
    timestamp_fits, timestamp_of_fields, timestamp_renderable, Timestamp, TimestampFields};
use crate::typeinfo::TypeInfo;

verus! {

/// The payload of a cell: exactly one variant is active, selected by the
/// paired descriptor's native type tag, never self-described.
#[derive(Debug)]
pub enum DataBuffer {
    /// A byte sequence (also the storage for character data).
    Bytes(Vec<u8>),
    /// A boolean.
    Boolean(bool),
    /// A 64-bit signed integer.
    Int64(i64),
    /// A 64-bit unsigned integer.
    Uint64(u64),
    /// A double-precision float, held as its IEEE-754 bit pattern.
    Double(u64),
    /// A single-precision float, held as its IEEE-754 bit pattern.
    Float(u32),
    /// A day-to-second interval.
    IntervalDS(IntervalDS),
    /// A year-to-month interval.
    IntervalYM(YearsMonths),
    /// A calendar timestamp.
    Timestamp(TimestampFields),
    /// An opaque handle to a large-object resource; ownership stays outside.
    Lob(u64),
    /// An opaque handle to a structured object value; ownership stays outside.
    Object(u64),
    /// An opaque handle to a nested statement; ownership stays outside.
    Stmt(u64),
}

/// The bytes of a payload; empty unless the byte variant is active.
pub open spec fn spec_bytes(v: DataBuffer) -> Seq<u8> {
    match v {
        DataBuffer::Bytes(b) => b@,
        _ => Seq::empty(),
    }
}

/// The boolean of a payload; false unless the boolean variant is active.
pub open spec fn spec_boolean(v: DataBuffer) -> bool {
    match v {
        DataBuffer::Boolean(b) => b,
        _ => false,
    }
}

/// The signed integer of a payload; zero unless that variant is active.
pub open spec fn spec_int64(v: DataBuffer) -> i64 {
    match v {
        DataBuffer::Int64(n) => n,
        _ => 0,
    }
}

/// The unsigned integer of a payload; zero unless that variant is active.
pub open spec fn spec_uint64(v: DataBuffer) -> u64 {
    match v {
        DataBuffer::Uint64(n) => n,
        _ => 0,
    }
}

/// The double bit pattern of a payload; zero unless that variant is active.
pub open spec fn spec_double_bits(v: DataBuffer) -> u64 {
    match v {
        DataBuffer::Double(n) => n,
        _ => 0,
    }
}

/// The float bit pattern of a payload; zero unless that variant is active.
pub open spec fn spec_float_bits(v: DataBuffer) -> u32 {
    match v {
        DataBuffer::Float(n) => n,
        _ => 0,
    }
}

/// The day-to-second interval of a payload; all-zero fields unless that
/// variant is active.
pub open spec fn spec_interval_ds(v: DataBuffer) -> IntervalDS {
    match v {
        DataBuffer::IntervalDS(i) => i,
        _ => IntervalDS { days: 0, hours: 0, minutes: 0, seconds: 0, fseconds: 0 },
    }
}

/// The year-to-month interval of a payload; zero years and months unless
/// that variant is active.
pub open spec fn spec_interval_ym(v: DataBuffer) -> YearsMonths {
    match v {
        DataBuffer::IntervalYM(i) => i,
        _ => YearsMonths { years: 0, months: 0 },
    }
}

/// The timestamp fields of a payload; all-zero fields unless that variant
/// is active.
pub open spec fn spec_timestamp(v: DataBuffer) -> TimestampFields {
    match v {
        DataBuffer::Timestamp(t) => t,
        _ => TimestampFields {
            year: 0,
            month: 0,
            day: 0,
            hour: 0,
            minute: 0,
            second: 0,
            fsecond: 0,
        },
    }
}

/// The large-object handle of a payload; the null handle unless that
/// variant is active.
pub open spec fn spec_lob(v: DataBuffer) -> u64 {
    match v {
        DataBuffer::Lob(h) => h,
        _ => 0,
    }
}

/// The object handle of a payload; the null handle unless that variant is
/// active.
pub open spec fn spec_object(v: DataBuffer) -> u64 {
    match v {
        DataBuffer::Object(h) => h,
        _ => 0,
    }
}

/// The statement handle of a payload; the null handle unless that variant
/// is active.
pub open spec fn spec_stmt(v: DataBuffer) -> u64 {
    match v {
        DataBuffer::Stmt(h) => h,
        _ => 0,
    }
}

/// One value exchanged with the database: an absence flag plus a payload.
///
/// The flag is set at construction and left untouched by every payload
/// accessor and mutator, so an absent cell stays absent whatever is done
/// with its payload.
#[derive(Debug)]
pub struct Data {
    /// The absence flag: true for a SQL NULL value.
    pub is_null: bool,
    /// The payload variants.
    pub value: DataBuffer,
}

/// The text a cell displays as under a descriptor, and the error when its
/// wire type defines none.
pub open spec fn display_text(d: Data, ti: TypeInfo) -> Result<Seq<char>, Error> {
    if d.is_null {
        Ok("(null)"@)
    } else {
        match ti.inner.oracle_type_num {
            OracleTypeNum::Char | OracleTypeNum::Varchar => Ok(decoded_text(spec_bytes(d.value))),
            OracleTypeNum::Date => {
                let t = timestamp_of_fields(spec_timestamp(d.value));
                if renderable_timestamp(t) {
                    Ok(rfc3339_of(t.year, t.month, t.day, t.hour, t.minute, t.second,
                            t.nanosecond))
                } else {
                    Err(Error::Overflow)
                }
            },
            OracleTypeNum::Number => Ok(double_text(spec_double_bits(d.value))),
            OracleTypeNum::Raw => Ok(hex_text(spec_bytes(d.value))),
            _ => Err(Error::Length),
        }
    }
}

/// A `Result` of text, seen at the level of character sequences.
pub open spec fn result_text(r: Result<String, Error>) -> Result<Seq<char>, Error> {
    match r {
        Ok(s) => Ok(s@),
        Err(e) => Err(e),
    }
}

impl Data {
    /// Build a cell from its absence flag and payload.
    pub fn new(is_null: bool, val: DataBuffer) -> (r: Self)
        ensures
            r.is_null == is_null,
            r.value == val,
    {
        Self { is_null, value: val }
    }

    /// Borrow the payload.
    pub fn inner(&self) -> (r: &DataBuffer)
        ensures
            *r == self.value,
    {
        &self.value
    }

    /// Whether the cell is absent (SQL NULL).
    pub fn null(&self) -> (r: bool)
        ensures
            r == self.is_null,
    {
        self.is_null
    }

    /// A fresh owned copy of the byte payload.
    pub fn get_bytes(&self) -> (r: Vec<u8>)
        ensures
            r@ == spec_bytes(self.value),
    {
        match &self.value {
            DataBuffer::Bytes(b) => slice_to_vec(b.as_slice()),
            _ => Vec::new(),
        }
    }

    /// Make the byte variant active, holding a copy of the given bytes.
    /// Fails with `Overflow` exactly when the length does not fit the wire
    /// format's 32-bit length slot; the cell is then left unchanged.
    pub fn set_bytes(&mut self, val: &[u8]) -> (r: Result<(), Error>)
        ensures
            r is Ok <==> val@.len() <= 0xffff_ffff,
            r is Ok ==> final(self).value is Bytes && spec_bytes(final(self).value) == val@,
            r is Err ==> *final(self) == *old(self) && r == Err::<(), Error>(Error::Overflow),
            final(self).is_null == old(self).is_null,
    {
        if val.len() > 0xffff_ffff {
            return Err(Error::Overflow);
        }
        self.value = DataBuffer::Bytes(slice_to_vec(val));
        Ok(())
    }

    /// The boolean payload.
    pub fn get_boolean(&self) -> (r: bool)
        ensures
            r == spec_boolean(self.value),
    {
        match &self.value {
            DataBuffer::Boolean(b) => *b,
            _ => false,
        }
    }

    /// Make the boolean variant active with the given value.
    pub fn set_boolean(&mut self, val: bool)
        ensures
            final(self).value == DataBuffer::Boolean(val),
            final(self).is_null == old(self).is_null,
    {
        self.value = DataBuffer::Boolean(val);
    }

    /// The signed integer payload.
    pub fn get_int64(&self) -> (r: i64)
        ensures
            r == spec_int64(self.value),
    {
        match &self.value {
            DataBuffer::Int64(n) => *n,
            _ => 0,
        }
    }

    /// Make the signed integer variant active with the given value.
    pub fn set_int64(&mut self, val: i64)
        ensures
            final(self).value == DataBuffer::Int64(val),
            final(self).is_null == old(self).is_null,
    {
        self.value = DataBuffer::Int64(val);
    }

    /// The unsigned integer payload.
    pub fn get_uint64(&self) -> (r: u64)
        ensures
            r == spec_uint64(self.value),
    {
        match &self.value {
            DataBuffer::Uint64(n) => *n,
            _ => 0,
        }
    }

    /// Make the unsigned integer variant active with the given value.
    pub fn set_uint64(&mut self, val: u64)
        ensures
            final(self).value == DataBuffer::Uint64(val),
            final(self).is_null == old(self).is_null,
    {
        self.value = DataBuffer::Uint64(val);
    }

    /// The double payload, as its IEEE-754 bit pattern.
    pub fn get_double_bits(&self) -> (r: u64)
        ensures
            r == spec_double_bits(self.value),
    {
        match &self.value {
            DataBuffer::Double(n) => *n,
            _ => 0,
        }
    }

    /// Make the double variant active with the given IEEE-754 bit pattern.
    pub fn set_double_bits(&mut self, val: u64)
        ensures
            final(self).value == DataBuffer::Double(val),
            final(self).is_null == old(self).is_null,
    {
        self.value = DataBuffer::Double(val);
    }

    /// The float payload, as its IEEE-754 bit pattern.
    pub fn get_float_bits(&self) -> (r: u32)
        ensures
            r == spec_float_bits(self.value),
    {
        match &self.value {
            DataBuffer::Float(n) => *n,
            _ => 0,
        }
    }

    /// Make the float variant active with the given IEEE-754 bit pattern.
    pub fn set_float_bits(&mut self, val: u32)
        ensures
            final(self).value == DataBuffer::Float(val),
            final(self).is_null == old(self).is_null,
    {
        self.value = DataBuffer::Float(val);
    }

    /// The large-object handle payload.
    pub fn get_lob(&self) -> (r: u64)
        ensures
            r == spec_lob(self.value),
    {
        match &self.value {
            DataBuffer::Lob(h) => *h,
            _ => 0,
        }
    }

    /// Make the large-object handle variant active with the given handle.
    pub fn set_lob(&mut self, val: u64)
        ensures
            final(self).value == DataBuffer::Lob(val),
            final(self).is_null == old(self).is_null,
    {
        self.value = DataBuffer::Lob(val);
    }

    /// The object handle payload.
    pub fn get_object(&self) -> (r: u64)
        ensures
            r == spec_object(self.value),
    {
        match &self.value {
            DataBuffer::Object(h) => *h,
            _ => 0,
        }
    }

    /// Make the object handle variant active with the given handle.
    pub fn set_object(&mut self, val: u64)
        ensures
            final(self).value == DataBuffer::Object(val),
            final(self).is_null == old(self).is_null,
    {
        self.value = DataBuffer::Object(val);
    }

    /// The nested statement handle payload.
    pub fn get_stmt(&self) -> (r: u64)
        ensures
            r == spec_stmt(self.value),
    {
        match &self.value {
            DataBuffer::Stmt(h) => *h,
            _ => 0,
        }
    }

    /// Make the statement handle variant active with the given handle.
    pub fn set_stmt(&mut self, val: u64)
        ensures
            final(self).value == DataBuffer::Stmt(val),
            final(self).is_null == old(self).is_null,
    {
        self.value = DataBuffer::Stmt(val);
    }

    /// The byte payload decoded as text, substituting the replacement
    /// character for invalid UTF-8; decoding never fails.
    pub fn get_string(&self) -> (r: String)
        ensures
            r@ == decoded_text(spec_bytes(self.value)),
    {
        match &self.value {
            DataBuffer::Bytes(b) => decode_bytes(b.as_slice()),
            _ => {
                proof {
                    vstd::utf8::encode_utf8_decode_utf8(Seq::<char>::empty());
                    assert(encode_utf8(Seq::<char>::empty()) =~= Seq::<u8>::empty());
                }
                String::new()
            },
        }
    }

    /// Make the byte variant active with the UTF-8 encoding of the given
    /// text. Fails with `Overflow` exactly when the encoding does not fit
    /// the wire format's 32-bit length slot; the cell is then left
    /// unchanged. Reading the cell back with `get_string` yields the same
    /// text.
    pub fn set_string(&mut self, val: &str) -> (r: Result<(), Error>)
        ensures
            r is Ok <==> encode_utf8(val@).len() <= 0xffff_ffff,
            r is Ok ==> final(self).value is Bytes && spec_bytes(final(self).value)
                == encode_utf8(val@),
            r is Ok ==> decoded_text(spec_bytes(final(self).value)) == val@,
            r is Err ==> *final(self) == *old(self) && r == Err::<(), Error>(Error::Overflow),
            final(self).is_null == old(self).is_null,
    {
        let bytes = val.as_bytes();
        if bytes.len() > 0xffff_ffff {
            return Err(Error::Overflow);
        }
        self.value = DataBuffer::Bytes(slice_to_vec(bytes));
        proof {
            crate::text::lemma_text_round_trip(val@);
        }
        Ok(())
    }

    /// The day-to-second interval payload as a canonical span.
    pub fn get_duration(&self) -> (r: Duration)
        ensures
            r == duration_of_ds(spec_interval_ds(self.value)),
            r.wf(),
    {
        let i: IntervalDS = match &self.value {
            DataBuffer::IntervalDS(i) => *i,
            _ => IntervalDS { days: 0, hours: 0, minutes: 0, seconds: 0, fseconds: 0 },
        };
        let total: i64 = 86400 * (i.days as i64) + 3600 * (i.hours as i64) + 60 * (i.minutes
            as i64) + (i.seconds as i64);
        let ghost t = crate::interval::ds_total_nanos(spec_interval_ds(self.value));
        if i.fseconds >= 0 {
            let fu: u64 = i.fseconds as u64;
            let extra: u64 = fu / 1_000_000_000;
            let nn: u64 = fu % 1_000_000_000;
            let secs: i64 = total + (extra as i64);
            proof {
                vstd::arithmetic::div_mod::lemma_fundamental_div_mod(fu as int, 1_000_000_000);
                assert(secs * 1_000_000_000 + nn == t);
                vstd::arithmetic::div_mod::lemma_fundamental_div_mod_converse(
                    t,
                    1_000_000_000,
                    secs as int,
                    nn as int,
                );
            }
            Duration { secs, nanos: nn as u32 }
        } else {
            let fm: u64 = (-(i.fseconds as i64)) as u64;
            let q: u64 = (fm + 999_999_999) / 1_000_000_000;
            proof {
                vstd::arithmetic::div_mod::lemma_fundamental_div_mod(
                    fm as int + 999_999_999,
                    1_000_000_000,
                );
            }
            let nn: u64 = q * 1_000_000_000 - fm;
            let secs: i64 = total - (q as i64);
            proof {
                assert(secs * 1_000_000_000 + nn == t);
                vstd::arithmetic::div_mod::lemma_fundamental_div_mod_converse(
                    t,
                    1_000_000_000,
                    secs as int,
                    nn as int,
                );
            }
            Duration { secs, nanos: nn as u32 }
        }
    }

    /// Make the day-to-second interval variant active with the narrow-field
    /// decomposition of the given span. Fails with `Overflow` exactly when
    /// the whole-day count does not fit its 32-bit slot; the cell is then
    /// left unchanged. Reading the cell back with `get_duration` yields the
    /// same span.
    pub fn set_duration(&mut self, val: Duration) -> (r: Result<(), Error>)
        requires
            val.wf(),
        ensures
            r is Ok <==> duration_fits(val),
            r is Ok ==> final(self).value == DataBuffer::IntervalDS(ds_of_duration(val)),
            r is Err ==> *final(self) == *old(self) && r == Err::<(), Error>(Error::Overflow),
            final(self).is_null == old(self).is_null,
    {
        let neg: bool = val.secs < 0;
        let m: u64 = if val.secs >= 0 {
            val.secs as u64
        } else if val.secs == i64::MIN {
            9_223_372_036_854_775_808u64
        } else {
            (-val.secs) as u64
        };
        assert(m == crate::interval::secs_magnitude(val));
        let days_m: u64 = m / 86400;
        let rem: u64 = m % 86400;
        let hours_m: u64 = rem / 3600;
        let rem2: u64 = rem % 3600;
        let minutes_m: u64 = rem2 / 60;
        let seconds_m: u64 = rem2 % 60;
        if !neg && days_m > 0x7fff_ffff {
            return Err(Error::Overflow);
        }
        if neg && days_m > 0x8000_0000 {
            return Err(Error::Overflow);
        }
        let fields = if neg {
            IntervalDS {
                days: if days_m == 0x8000_0000 {
                    i32::MIN
                } else {
                    -(days_m as i32)
                },
                hours: -(hours_m as i32),
                minutes: -(minutes_m as i32),
                seconds: -(seconds_m as i32),
                fseconds: val.nanos as i32,
            }
        } else {
            IntervalDS {
                days: days_m as i32,
                hours: hours_m as i32,
                minutes: minutes_m as i32,
                seconds: seconds_m as i32,
                fseconds: val.nanos as i32,
            }
        };
        assert(fields == ds_of_duration(val));
        self.value = DataBuffer::IntervalDS(fields);
        Ok(())
    }

    /// The timestamp payload as a calendar value at full field widths.
    pub fn get_utc(&self) -> (r: Timestamp)
        ensures
            r == timestamp_of_fields(spec_timestamp(self.value)),
    {
        let f: TimestampFields = match &self.value {
            DataBuffer::Timestamp(t) => *t,
            _ => TimestampFields {
                year: 0,
                month: 0,
                day: 0,
                hour: 0,
                minute: 0,
                second: 0,
                fsecond: 0,
            },
        };
        Timestamp {
            year: f.year as i32,
            month: f.month as u32,
            day: f.day as u32,
            hour: f.hour as u32,
            minute: f.minute as u32,
            second: f.second as u32,
            nanosecond: f.fsecond,
        }
    }

    /// Make the timestamp variant active with the narrow decomposition of
    /// the given calendar value. Fails with `Overflow` exactly when some
    /// field does not fit its narrow slot (the year is the narrowest); the
    /// cell is then left unchanged. Reading the cell back with `get_utc`
    /// yields the same calendar value.
    pub fn set_utc(&mut self, val: Timestamp) -> (r: Result<(), Error>)
        ensures
            r is Ok <==> timestamp_fits(val),
            r is Ok ==> final(self).value == DataBuffer::Timestamp(fields_of_timestamp(val)),
            r is Err ==> *final(self) == *old(self) && r == Err::<(), Error>(Error::Overflow),
            final(self).is_null == old(self).is_null,
    {
        if val.year < -0x8000 || val.year > 0x7fff || val.month > 0xff || val.day > 0xff
            || val.hour > 0xff || val.minute > 0xff || val.second > 0xff {
            return Err(Error::Overflow);
        }
        self.value = DataBuffer::Timestamp(
            TimestampFields {
                year: val.year as i16,
                month: val.month as u8,
                day: val.day as u8,
                hour: val.hour as u8,
                minute: val.minute as u8,
                second: val.second as u8,
                fsecond: val.nanosecond,
            },
        );
        Ok(())
    }

    /// The year-to-month interval payload.
    pub fn get_years_months(&self) -> (r: YearsMonths)
        ensures
            r == spec_interval_ym(self.value),
    {
        match &self.value {
            DataBuffer::IntervalYM(i) => *i,
            _ => YearsMonths { years: 0, months: 0 },
        }
    }

    /// Make the year-to-month interval variant active with the given pair.
    /// Both fields already match the native width, so nothing can fail and
    /// reading the cell back with `get_years_months` yields the same pair.
    pub fn set_years_months(&mut self, val: YearsMonths)
        ensures
            final(self).value == DataBuffer::IntervalYM(val),
            final(self).is_null == old(self).is_null,
    {
        self.value = DataBuffer::IntervalYM(val);
    }

    /// Render the cell as text under the given descriptor, dispatching on
    /// its wire type: absent cells render as `"(null)"`, character types as
    /// the decoded byte payload, dates as ISO-8601 text with a UTC offset,
    /// raw types as lowercase hexadecimal; every other wire type fails with
    /// `Length`, and a date whose fields name no real calendar day fails
    /// with `Overflow`.
    pub fn to_string(&self, type_info: &TypeInfo) -> (r: Result<String, Error>)
        ensures
            result_text(r) == display_text(*self, *type_info),
    {
        if self.null() {
            return Ok("(null)".to_owned());
        }
        match type_info.oracle_type_num() {
            OracleTypeNum::Char | OracleTypeNum::Varchar => Ok(self.get_string()),
            OracleTypeNum::Date => {
                let t = self.get_utc();
                if timestamp_renderable(&t) {
                    Ok(render_rfc3339(&t))
                } else {
                    Err(Error::Overflow)
                }
            },
            OracleTypeNum::Number => Ok(double_string(self.get_double_bits())),
            OracleTypeNum::Raw => {
                let b = self.get_bytes();
                Ok(hex_string(b.as_slice()))
            },
            _ => Err(Error::Length),
        }
    }

    /// The byte length of the cell's textual rendering: exactly the length
    /// in bytes (UTF-8, not characters) of what `to_string` returns, with
    /// the same error when the rendering fails.
    pub fn len(&self, type_info: &TypeInfo) -> (r: Result<usize, Error>)
        ensures
            display_text(*self, *type_info) matches Ok(t) ==> (r matches Ok(n) && n
                == encode_utf8(t).len()),
            display_text(*self, *type_info) matches Err(e) ==> r == Err::<usize, Error>(e),
    {
        match self.to_string(type_info) {
            Ok(s) => Ok(s.as_str().as_bytes().len()),
            Err(e) => Err(e),
        }
    }
}

/// Byte round trip: the byte payload a cell stores is exactly the byte
/// sequence a subsequent read hands back.
pub proof fn lemma_bytes_round_trip(v: Vec<u8>)
    ensures
        spec_bytes(DataBuffer::Bytes(v)) == v@,
{
}

/// Year/month round trip: the pair a cell stores is exactly the pair a
/// subsequent read hands back, with no range condition.
pub proof fn lemma_years_months_round_trip(ym: YearsMonths)
    ensures
        spec_interval_ym(DataBuffer::IntervalYM(ym)) == ym,
{
}

} // verus!
