//! Wire-type and native-type tags for cells and descriptors.

use vstd::prelude::*;

verus! {

/// The database-side logical type of a column or parameter (the wire type).
#[derive(Clone, Copy, Debug, PartialEq, Eq, Structural)]
pub enum OracleTypeNum {
    /// No type information.
    TypeNone,
    /// Variable-length character data.
    Varchar,
    /// Variable-length national character data.
    Nvarchar,
    /// Fixed-length character data.
    Char,
    /// Fixed-length national character data.
    Nchar,
    /// A row identifier.
    Rowid,
    /// Raw binary data.
    Raw,
    /// A single-precision native float column.
    NativeFloat,
    /// A double-precision native float column.
    NativeDouble,
    /// A native signed integer column.
    NativeInt,
    /// A numeric column.
    Number,
    /// A date column.
    Date,
    /// A timestamp column.
    Timestamp,
    /// A timestamp-with-time-zone column.
    TimestampTz,
    /// A timestamp-with-local-time-zone column.
    TimestampLtz,
    /// A day-to-second interval column.
    IntervalDs,
    /// A year-to-month interval column.
    IntervalYm,
    /// A character large object.
    Clob,
    /// A national character large object.
    Nclob,
    /// A binary large object.
    Blob,
    /// A binary file reference.
    Bfile,
    /// A nested statement or result set.
    Stmt,
    /// A boolean column.
    Boolean,
    /// A named object type column.
    Object,
    /// A long variable-length character column.
    LongVarchar,
    /// A long raw binary column.
    LongRaw,
    /// A native unsigned integer column.
    NativeUint,
}

/// The in-memory variant tag saying which payload of a cell is active.
#[derive(Clone, Copy, Debug, PartialEq, Eq, Structural)]
pub enum NativeTypeNum {
    /// A 64-bit signed integer payload.
    Int64,
    /// A 64-bit unsigned integer payload.
    Uint64,
    /// A single-precision float payload.
    Float,
    /// A double-precision float payload.
    Double,
    /// A byte-sequence payload.
    Bytes,
    /// A calendar timestamp payload.
    Timestamp,
    /// A day-to-second interval payload.
    IntervalDs,
    /// A year-to-month interval payload.
    IntervalYm,
    /// A large-object handle payload.
    Lob,
    /// A structured object handle payload.
    Object,
    /// A nested statement handle payload.
    Stmt,
    /// A boolean payload.
    Boolean,
    /// A row identifier payload.
    Rowid,
}

} // verus!
