//! The per-column / per-variable type descriptor.

use vstd::prelude::*;

use crate::enums::{NativeTypeNum, OracleTypeNum};

verus! {

/// A reference to a named object type, carried through this layer untouched.
///
/// The handle value is owned by the external statement / object layer; this
/// layer asserts nothing about what it designates. The value `0` stands for
/// the absent reference and never appears inside an [`ObjectType`].
#[derive(Clone, Copy, Debug, PartialEq, Eq, Structural)]
pub struct ObjectType {
    /// The raw handle value handed over by the external collaborator.
    pub handle: u64,
}

/// The raw descriptor fields, as the external metadata layer fills them.
#[derive(Clone, Copy, Debug, PartialEq, Eq, Structural)]
pub struct DataTypeInfo {
    /// The wire type of the column or parameter.
    pub oracle_type_num: OracleTypeNum,
    /// The default native type: which cell payload is active.
    pub default_native_type_num: NativeTypeNum,
    /// Database-side size in bytes; zero except for string and binary types.
    pub db_size_in_bytes: u32,
    /// Client-side size in bytes; zero except for string and binary types.
    pub client_size_in_bytes: u32,
    /// Size in characters; zero except for string types.
    pub size_in_chars: u32,
    /// Numeric precision; zero except for numeric and timestamp types.
    pub precision: i16,
    /// Numeric scale; zero except for numeric types.
    pub scale: i8,
    /// Object type handle; zero except for named type columns.
    pub object_type: u64,
}

/// Immutable metadata describing how to interpret a cell's active payload.
#[derive(Clone, Copy, Debug, PartialEq, Eq, Structural)]
pub struct TypeInfo {
    /// The raw descriptor fields.
    pub inner: DataTypeInfo,
}

impl TypeInfo {
    /// Wrap the raw descriptor fields.
    pub fn new(inner: DataTypeInfo) -> (r: Self)
        ensures
            r.inner == inner,
    {
        Self { inner }
    }

    /// The wire type of the column that is being queried.
    pub fn oracle_type_num(&self) -> (r: OracleTypeNum)
        ensures
            r == self.inner.oracle_type_num,
    {
        self.inner.oracle_type_num
    }

    /// The default native type for the column that is being queried.
    pub fn default_native_type_num(&self) -> (r: NativeTypeNum)
        ensures
            r == self.inner.default_native_type_num,
    {
        self.inner.default_native_type_num
    }

    /// The database-side size in bytes. Populated only for string and binary
    /// columns; zero for all others.
    pub fn db_size_in_bytes(&self) -> (r: u32)
        ensures
            r == self.inner.db_size_in_bytes,
    {
        self.inner.db_size_in_bytes
    }

    /// The client-side size in bytes. Populated only for string and binary
    /// columns; zero for all others.
    pub fn client_size_in_bytes(&self) -> (r: u32)
        ensures
            r == self.inner.client_size_in_bytes,
    {
        self.inner.client_size_in_bytes
    }

    /// The size in characters. Populated only for string columns; zero for
    /// all others.
    pub fn size_in_chars(&self) -> (r: u32)
        ensures
            r == self.inner.size_in_chars,
    {
        self.inner.size_in_chars
    }

    /// The numeric precision. Populated only for numeric and timestamp
    /// columns; zero for all others.
    pub fn precision(&self) -> (r: i16)
        ensures
            r == self.inner.precision,
    {
        self.inner.precision
    }

    /// The numeric scale. Populated only for numeric columns; zero for all
    /// others.
    pub fn scale(&self) -> (r: i8)
        ensures
            r == self.inner.scale,
    {
        self.inner.scale
    }

    /// The object type reference, present exactly when the underlying handle
    /// is not the null handle.
    pub fn object_type(&self) -> (r: Option<ObjectType>)
        ensures
            self.inner.object_type == 0 ==> r is None,
            self.inner.object_type != 0 ==> (r matches Some(o) && o.handle
                == self.inner.object_type),
    {
        if self.inner.object_type == 0 {
            None
        } else {
            Some(ObjectType { handle: self.inner.object_type })
        }
    }
}

impl Default for TypeInfo {
    /// A descriptor with no type information and every field zeroed.
    fn default() -> (r: Self)
        ensures
            r.inner.oracle_type_num is TypeNone,
            r.inner.default_native_type_num is Int64,
            r.inner.db_size_in_bytes == 0,
            r.inner.client_size_in_bytes == 0,
            r.inner.size_in_chars == 0,
            r.inner.precision == 0,
            r.inner.scale == 0,
            r.inner.object_type == 0,
    {
        Self {
            inner: DataTypeInfo {
                oracle_type_num: OracleTypeNum::TypeNone,
                default_native_type_num: NativeTypeNum::Int64,
                db_size_in_bytes: 0,
                client_size_in_bytes: 0,
                size_in_chars: 0,
                precision: 0,
                scale: 0,
                object_type: 0,
            },
        }
    }
}

} // verus!
