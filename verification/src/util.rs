//! Checked narrowing from `usize` into the integer widths the wire
//! structures use.

use vstd::prelude::*;

use crate::error::Error;

verus! {

/// Checked conversion from `usize`, failing with `Overflow` exactly when
/// the value does not fit the target width.
pub trait PrivateTryFromUsize: Sized {
    /// The largest `usize`-representable value the target type can hold.
    spec fn max_spec() -> int;

    /// The converted value, as a mathematical integer.
    spec fn as_int(self) -> int;

    /// Convert, or report that the value does not fit.
    fn private_try_from(n: usize) -> (r: Result<Self, Error>)
        ensures
            r is Ok <==> n <= Self::max_spec(),
            r matches Ok(v) ==> v.as_int() == n,
            r matches Err(e) ==> e == Error::Overflow;
}

impl PrivateTryFromUsize for u16 {
    open spec fn max_spec() -> int {
        0xffff
    }

    open spec fn as_int(self) -> int {
        self as int
    }

    fn private_try_from(n: usize) -> (r: Result<Self, Error>) {
        if n <= 0xffff {
            Ok(n as u16)
        } else {
            Err(Error::Overflow)
        }
    }
}

impl PrivateTryFromUsize for u32 {
    open spec fn max_spec() -> int {
        0xffff_ffff
    }

    open spec fn as_int(self) -> int {
        self as int
    }

    fn private_try_from(n: usize) -> (r: Result<Self, Error>) {
        if n <= 0xffff_ffff {
            Ok(n as u32)
        } else {
            Err(Error::Overflow)
        }
    }
}

impl PrivateTryFromUsize for u64 {
    open spec fn max_spec() -> int {
        0xffff_ffff_ffff_ffff
    }

    open spec fn as_int(self) -> int {
        self as int
    }

    fn private_try_from(n: usize) -> (r: Result<Self, Error>) {
        Ok(n as u64)
    }
}

impl PrivateTryFromUsize for u128 {
    open spec fn max_spec() -> int {
        0xffff_ffff_ffff_ffff_ffff_ffff_ffff_ffff
    }

    open spec fn as_int(self) -> int {
        self as int
    }

    fn private_try_from(n: usize) -> (r: Result<Self, Error>) {
        Ok(n as u128)
    }
}

impl PrivateTryFromUsize for i32 {
    open spec fn max_spec() -> int {
        0x7fff_ffff
    }

    open spec fn as_int(self) -> int {
        self as int
    }

    fn private_try_from(n: usize) -> (r: Result<Self, Error>) {
        if n <= 0x7fff_ffff {
            Ok(n as i32)
        } else {
            Err(Error::Overflow)
        }
    }
}

impl PrivateTryFromUsize for i64 {
    open spec fn max_spec() -> int {
        0x7fff_ffff_ffff_ffff
    }

    open spec fn as_int(self) -> int {
        self as int
    }

    fn private_try_from(n: usize) -> (r: Result<Self, Error>) {
        if n as u64 <= 0x7fff_ffff_ffff_ffffu64 {
            Ok(n as i64)
        } else {
            Err(Error::Overflow)
        }
    }
}

impl PrivateTryFromUsize for i128 {
    open spec fn max_spec() -> int {
        0x7fff_ffff_ffff_ffff_ffff_ffff_ffff_ffff
    }

    open spec fn as_int(self) -> int {
        self as int
    }

    fn private_try_from(n: usize) -> (r: Result<Self, Error>) {
        Ok(n as i128)
    }
}

} // verus!
