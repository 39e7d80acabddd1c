//! The per-entity shape record: bounding rectangle, rotation, affine
//! transform, ordered child-id list, ordered fill list, and blend mode.

use crate::color::Color;
use crate::geom::{Matrix, Rect};
use vstd::prelude::*;

verus! {

/// A paint operation applied to a shape, painted back-to-front in list
/// order. Currently the only variant is a solid color.
#[derive(Clone, Copy, PartialEq, Eq, Structural, Debug)]
pub enum Fill {
    Solid(Color),
}

/// The compositing mode applied when a shape's fills are painted into its
/// destination.
#[derive(Clone, Copy, PartialEq, Eq, Structural, Debug)]
pub enum BlendMode {
    SrcOver,
    Screen,
    Overlay,
    Darken,
    Lighten,
    ColorDodge,
    ColorBurn,
    HardLight,
    SoftLight,
    Difference,
    Exclusion,
    Multiply,
    Hue,
    Saturation,
    Color,
    Luminosity,
}

/// The blend mode denoted by a host-supplied numeric code. The codes form a
/// closed set; every unrecognized code maps to the default `SrcOver`.
pub open spec fn spec_blend_mode_from_code(code: i32) -> BlendMode {
    if code == 3 {
        BlendMode::SrcOver
    } else if code == 14 {
        BlendMode::Screen
    } else if code == 15 {
        BlendMode::Overlay
    } else if code == 16 {
        BlendMode::Darken
    } else if code == 17 {
        BlendMode::Lighten
    } else if code == 18 {
        BlendMode::ColorDodge
    } else if code == 19 {
        BlendMode::ColorBurn
    } else if code == 20 {
        BlendMode::HardLight
    } else if code == 21 {
        BlendMode::SoftLight
    } else if code == 22 {
        BlendMode::Difference
    } else if code == 23 {
        BlendMode::Exclusion
    } else if code == 24 {
        BlendMode::Multiply
    } else if code == 25 {
        BlendMode::Hue
    } else if code == 26 {
        BlendMode::Saturation
    } else if code == 27 {
        BlendMode::Color
    } else if code == 28 {
        BlendMode::Luminosity
    } else {
        BlendMode::SrcOver
    }
}

impl BlendMode {
    /// Decodes a host-supplied numeric blend-mode code; unrecognized codes
    /// give the default `SrcOver` rather than failing.
    pub fn from_code(code: i32) -> (r: BlendMode)
        ensures
            r == spec_blend_mode_from_code(code),
    {
        match code {
            3 => BlendMode::SrcOver,
            14 => BlendMode::Screen,
            15 => BlendMode::Overlay,
            16 => BlendMode::Darken,
            17 => BlendMode::Lighten,
            18 => BlendMode::ColorDodge,
            19 => BlendMode::ColorBurn,
            20 => BlendMode::HardLight,
            21 => BlendMode::SoftLight,
            22 => BlendMode::Difference,
            23 => BlendMode::Exclusion,
            24 => BlendMode::Multiply,
            25 => BlendMode::Hue,
            26 => BlendMode::Saturation,
            27 => BlendMode::Color,
            28 => BlendMode::Luminosity,
            _ => BlendMode::SrcOver,
        }
    }
}

/// The mathematical value of a shape: the same fields with the two ordered
/// lists seen as sequences.
pub ghost struct ShapeView {
    pub id: u128,
    pub selrect: Rect,
    pub rotation: u32,
    pub transform: Matrix,
    pub children: Seq<u128>,
    pub fills: Seq<Fill>,
    pub blend_mode: BlendMode,
}

/// A drawable entity. `children` defines both paint order (back-to-front)
/// and nesting for transform composition; duplicates are permitted and
/// order is preserved. `rotation` and the coordinate fields hold
/// single-precision bit patterns.
pub struct Shape {
    pub id: u128,
    pub selrect: Rect,
    pub rotation: u32,
    pub transform: Matrix,
    pub children: Vec<u128>,
    pub fills: Vec<Fill>,
    pub blend_mode: BlendMode,
}

impl View for Shape {
    type V = ShapeView;

    open spec fn view(&self) -> ShapeView {
        ShapeView {
            id: self.id,
            selrect: self.selrect,
            rotation: self.rotation,
            transform: self.transform,
            children: self.children@,
            fills: self.fills@,
            blend_mode: self.blend_mode,
        }
    }
}

/// The default-initialized shape stored the first time an identity is
/// selected: zero rectangle, zero rotation, identity transform, no
/// children, no fills, default blend mode.
pub open spec fn spec_default_shape(id: u128) -> ShapeView {
    ShapeView {
        id,
        selrect: Rect::spec_zero(),
        rotation: 0,
        transform: Matrix::spec_identity(),
        children: Seq::empty(),
        fills: Seq::empty(),
        blend_mode: BlendMode::SrcOver,
    }
}

impl Shape {
    /// A new default-initialized shape at `id`.
    pub fn new(id: u128) -> (s: Shape)
        ensures
            s@ == spec_default_shape(id),
    {
        let s = Shape {
            id,
            selrect: Rect::zero(),
            rotation: 0,
            transform: Matrix::identity(),
            children: Vec::new(),
            fills: Vec::new(),
            blend_mode: BlendMode::SrcOver,
        };
        proof {
            assert(s@.children =~= Seq::<u128>::empty());
            assert(s@.fills =~= Seq::<Fill>::empty());
        }
        s
    }

    /// Appends a fill at the end of the paint order.
    pub fn add_fill(&mut self, fill: Fill)
        ensures
            final(self)@ == (ShapeView { fills: old(self)@.fills.push(fill), ..old(self)@ }),
    {
        self.fills.push(fill);
    }

    /// Empties the fill list.
    pub fn clear_fills(&mut self)
        ensures
            final(self)@ == (ShapeView { fills: Seq::empty(), ..old(self)@ }),
    {
        self.fills.clear();
    }

    /// Appends a child identity; duplicates are kept and order is
    /// preserved.
    pub fn add_child(&mut self, child: u128)
        ensures
            final(self)@ == (ShapeView { children: old(self)@.children.push(child), ..old(self)@ }),
    {
        self.children.push(child);
    }

    /// Empties the child list.
    pub fn clear_children(&mut self)
        ensures
            final(self)@ == (ShapeView { children: Seq::empty(), ..old(self)@ }),
    {
        self.children.clear();
    }

    /// Replaces the blend mode.
    pub fn set_blend_mode(&mut self, mode: BlendMode)
        ensures
            final(self)@ == (ShapeView { blend_mode: mode, ..old(self)@ }),
    {
        self.blend_mode = mode;
    }
}

} // verus!
