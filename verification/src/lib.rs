//! Value-cell marshaling for Oracle-style bound variables and fetch buffers.
//!
//! A [`Data`] cell holds one value exchanged with the database: an absence
//! flag plus one payload variant. A paired [`TypeInfo`] descriptor, produced
//! once per column or bound variable, says how the cell is to be read.

mod data;
mod decimal;
mod enums;
mod error;
mod interval;
mod query;
mod text;
mod timestamp;
mod typeinfo;
mod util;

pub use data::{Data, DataBuffer};
pub use enums::{NativeTypeNum, OracleTypeNum};
pub use error::Error;
pub use interval::{Duration, IntervalDS, YearsMonths};
pub use query::Info as QueryInfo;
pub use timestamp::{Timestamp, TimestampFields};
pub use typeinfo::{DataTypeInfo, ObjectType, TypeInfo};
pub use util::PrivateTryFromUsize;
