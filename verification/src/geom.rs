//! Plain geometry records: an axis-aligned rectangle and a 2x3 affine
//! transform. Every coordinate field holds the IEEE-754 bit pattern of a
//! single-precision value; the core stores and forwards these patterns
//! without doing numeric work on them (composition with the viewport is the
//! rasterization backend's job).

use vstd::prelude::*;

verus! {

/// Bit pattern of the single-precision value one; the default transform and
/// zoom are built from it.
pub const ONE_F32_BITS: u32 = 0x3F80_0000;

/// An axis-aligned rectangle, `(left, top, right, bottom)`. The core does
/// not enforce `left <= right` or `top <= bottom`; the host owns that
/// convention.
#[derive(Clone, Copy, PartialEq, Eq, Structural, Debug)]
pub struct Rect {
    pub left: u32,
    pub top: u32,
    pub right: u32,
    pub bottom: u32,
}

impl Rect {
    /// The all-zero rectangle (every coordinate is the bit pattern of 0.0).
    pub open spec fn spec_zero() -> Rect {
        Rect { left: 0, top: 0, right: 0, bottom: 0 }
    }

    /// Returns the all-zero rectangle.
    pub fn zero() -> (r: Rect)
        ensures
            r == Rect::spec_zero(),
    {
        Rect { left: 0, top: 0, right: 0, bottom: 0 }
    }

    /// Replaces all four coordinates at once.
    pub fn set_ltrb(&mut self, left: u32, top: u32, right: u32, bottom: u32)
        ensures
            *final(self) == (Rect { left, top, right, bottom }),
    {
        self.left = left;
        self.top = top;
        self.right = right;
        self.bottom = bottom;
    }
}

/// A standard 2x3 affine matrix `(a, b, c, d, e, f)` mapping
/// `(x, y) -> (a*x + c*y + e, b*x + d*y + f)`.
#[derive(Clone, Copy, PartialEq, Eq, Structural, Debug)]
pub struct Matrix {
    pub a: u32,
    pub b: u32,
    pub c: u32,
    pub d: u32,
    pub e: u32,
    pub f: u32,
}

impl Matrix {
    /// The identity transform: unit scale, no shear, no translation.
    pub open spec fn spec_identity() -> Matrix {
        Matrix { a: ONE_F32_BITS, b: 0, c: 0, d: ONE_F32_BITS, e: 0, f: 0 }
    }

    /// Returns the identity transform.
    pub fn identity() -> (m: Matrix)
        ensures
            m == Matrix::spec_identity(),
    {
        Matrix { a: ONE_F32_BITS, b: 0, c: 0, d: ONE_F32_BITS, e: 0, f: 0 }
    }
}

} // verus!
