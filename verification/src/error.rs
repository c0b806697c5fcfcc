//! The errors of this library.

use vstd::prelude::*;

verus! {

/// Why a block value could not be built from the caller's arguments.
#[derive(Debug, Clone, Copy, PartialEq, Eq, Structural)]
pub enum InvalidBlockValue {
    /// The block size is zero, or its exponent needs more than three bits.
    /// Holds the size that was asked for.
    SizeExponentEncodingError(usize),
    /// An argument does not fit the integer width used on the wire.
    TypeBoundsError,
    /// The block number is larger than twenty bits allow. Holds that number.
    MaximumNumberExceeded(u32),
}

/// A byte string that the integer codec cannot read as an option value.
#[derive(Debug, Clone, Copy, PartialEq, Eq, Structural)]
pub struct IncompatibleOptionValueFormat;

} // verus!
