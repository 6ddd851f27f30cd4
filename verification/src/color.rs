//! Colours as the graphics device takes them.

use vstd::prelude::*;

verus! {

/// The bit pattern of the double `1.0`.
pub const F64_ONE: u64 = 0x3FF0_0000_0000_0000;

/// A colour with alpha. Each channel holds the bit pattern of an IEEE 754
/// double, so that a colour passes through unchanged and compares exactly.
#[derive(Clone, Copy, Debug, PartialEq, Eq, Structural)]
pub struct Color {
    pub r: u64,
    pub g: u64,
    pub b: u64,
    pub a: u64,
}

impl Color {
    /// Opaque black.
    pub open spec fn spec_black() -> Color {
        Color { r: 0, g: 0, b: 0, a: F64_ONE }
    }

    /// Opaque black.
    #[verifier::when_used_as_spec(spec_black)]
    pub fn black() -> (color: Color)
        ensures
            color == Color::spec_black(),
    {
        Color { r: 0, g: 0, b: 0, a: F64_ONE }
    }
}

} // verus!
