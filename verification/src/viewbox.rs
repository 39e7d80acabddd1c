//! The viewport: zoom factor and pan offset defining the world-to-device
//! mapping `device = translate(pan) . scale(zoom) . world`, which the
//! rasterization backend applies. All three fields hold single-precision
//! bit patterns; the core performs no validation on them (a non-positive
//! zoom is a documented caller error, not defended against).

use crate::geom::ONE_F32_BITS;
use vstd::prelude::*;

verus! {

/// The camera state: zoom plus pan. Zoom and pan are independently
/// settable because drag-panning and scroll-zooming are distinct
/// interaction modes.
#[derive(Clone, Copy, PartialEq, Eq, Structural, Debug)]
pub struct ViewBox {
    pub zoom: u32,
    pub x: u32,
    pub y: u32,
}

impl ViewBox {
    /// The initial viewport: unit zoom, zero pan.
    pub open spec fn spec_default() -> ViewBox {
        ViewBox { zoom: ONE_F32_BITS, x: 0, y: 0 }
    }

    /// Returns the initial viewport.
    pub fn new() -> (v: ViewBox)
        ensures
            v == ViewBox::spec_default(),
    {
        ViewBox { zoom: ONE_F32_BITS, x: 0, y: 0 }
    }

    /// Atomic replace of all three fields (a view jump).
    pub fn set_all(&mut self, zoom: u32, x: u32, y: u32)
        ensures
            *final(self) == (ViewBox { zoom, x, y }),
    {
        self.zoom = zoom;
        self.x = x;
        self.y = y;
    }

    /// Replaces the zoom; the pan is left untouched.
    pub fn set_zoom(&mut self, zoom: u32)
        ensures
            *final(self) == (ViewBox { zoom, ..*old(self) }),
    {
        self.zoom = zoom;
    }

    /// Replaces the pan; the zoom is left untouched.
    pub fn set_xy(&mut self, x: u32, y: u32)
        ensures
            *final(self) == (ViewBox { x, y, ..*old(self) }),
    {
        self.x = x;
        self.y = y;
    }
}

} // verus!
