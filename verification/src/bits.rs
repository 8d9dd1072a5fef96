//! Bit patterns of the single-precision constants that the library writes.

use vstd::prelude::*;

verus! {

/// Bit pattern of `0.0`.
pub const ZERO: u32 = 0x0000_0000;

/// Bit pattern of `1.0`.
pub const ONE: u32 = 0x3f80_0000;

/// Bit pattern of `-1.0`.
pub const NEG_ONE: u32 = 0xbf80_0000;

} // verus!
