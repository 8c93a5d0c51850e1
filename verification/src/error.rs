use vstd::prelude::*;

use crate::tenor_type::TenorType;

verus! {

/// Errors that can occur when working with tenors.
#[derive(Debug, Clone, PartialEq, Eq)]
pub enum TenorsError {
    /// A duration of one type cannot be added to a tenor of another.
    IncompatibleTenors {
        /// The tenor's type.
        tenor: TenorType,
        /// The duration's type.
        duration: TenorType,
    },
    /// The string is not a tenor in any supported notation.
    UnparsableTenorString(String),
    /// The arithmetic would overflow the offset.
    ArithmeticOverflow,
}

} // verus!
