//! Per-column query metadata, as handed over by the statement layer.

use vstd::prelude::*;

use crate::typeinfo::TypeInfo;

verus! {

/// Metadata for one queried column: its name, its type descriptor, and
/// whether it may hold NULL values. All values stay valid as long as the
/// producing statement does.
#[derive(Debug)]
pub struct Info {
    /// The column name.
    pub name: String,
    /// The column's type descriptor.
    pub type_info: TypeInfo,
    /// Whether the column may return NULL values.
    pub null_ok: bool,
}

impl Info {
    /// Build the metadata from its three fields.
    pub fn new(name: String, type_info: TypeInfo, null_ok: bool) -> (r: Info)
        ensures
            r.name@ == name@,
            r.type_info == type_info,
            r.null_ok == null_ok,
    {
        Info { name, type_info, null_ok }
    }

    /// The name of the column which is being queried.
    pub fn name(&self) -> (r: String)
        ensures
            r@ == self.name@,
    {
        self.name.clone()
    }

    /// The column's type descriptor.
    pub fn type_info(&self) -> (r: TypeInfo)
        ensures
            r == self.type_info,
    {
        self.type_info
    }

    /// Whether the column that is being queried may return NULL values.
    pub fn null_ok(&self) -> (r: bool)
        ensures
            r == self.null_ok,
    {
        self.null_ok
    }
}

} // verus!
