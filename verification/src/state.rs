//! The singleton state behind the host call surface: the shape arena, the
//! mutation cursor, the viewport, the canvas dimensions, and the cached
//! navigation state.
//!
//! Every cursor-relative mutator resolves the cursor anew on each call and
//! is a silent no-op when no shape has ever been selected: the host may
//! legitimately issue setup calls before any select.

use crate::arena::{has_id, unique_ids, ShapeArena};
use crate::color::{alpha_byte, spec_alpha_byte, Color};
use crate::geom::Matrix;
use crate::render::{
    render_plan, root_ids, spec_render, spec_root_ids, RenderOp,
};
use crate::shapes::{
    spec_blend_mode_from_code, spec_default_shape, BlendMode, Fill, Shape, ShapeView,
};
use crate::viewbox::ViewBox;
use vstd::prelude::*;

verus! {

/// One cursor-relative mutation, as issued by the host.
#[derive(Clone, Copy, PartialEq, Eq, Structural, Debug)]
pub enum Mutator {
    SetSelrect { left: u32, top: u32, right: u32, bottom: u32 },
    SetRotation { rotation: u32 },
    SetTransform { transform: Matrix },
    AddChild { child: u128 },
    ClearChildren,
    AddSolidFill { r: u8, g: u8, b: u8, alpha: u32 },
    ClearFills,
    SetBlendMode { code: i32 },
}

/// What one mutation does to the shape it lands on.
pub open spec fn spec_apply_to_shape(sh: ShapeView, m: Mutator) -> ShapeView {
    match m {
        Mutator::SetSelrect { left, top, right, bottom } => ShapeView {
            selrect: crate::geom::Rect { left, top, right, bottom },
            ..sh
        },
        Mutator::SetRotation { rotation } => ShapeView { rotation, ..sh },
        Mutator::SetTransform { transform } => ShapeView { transform, ..sh },
        Mutator::AddChild { child } => ShapeView { children: sh.children.push(child), ..sh },
        Mutator::ClearChildren => ShapeView { children: Seq::empty(), ..sh },
        Mutator::AddSolidFill { r, g, b, alpha } => ShapeView {
            fills: sh.fills.push(Fill::Solid(Color { r, g, b, a: spec_alpha_byte(alpha) })),
            ..sh
        },
        Mutator::ClearFills => ShapeView { fills: Seq::empty(), ..sh },
        Mutator::SetBlendMode { code } => ShapeView {
            blend_mode: spec_blend_mode_from_code(code),
            ..sh
        },
    }
}

/// The shape list after one mutation lands on the shape with identity
/// `id`; every other shape is untouched.
pub open spec fn spec_update_shape(s: Seq<ShapeView>, id: u128, m: Mutator) -> Seq<ShapeView> {
    Seq::new(
        s.len(),
        |j: int|
            if s[j].id == id {
                spec_apply_to_shape(s[j], m)
            } else {
                s[j]
            },
    )
}

/// The mathematical value of the whole state.
pub ghost struct StateView {
    pub shapes: Seq<ShapeView>,
    pub viewbox: ViewBox,
    pub width: i32,
    pub height: i32,
    pub debug: u32,
    pub current: Option<u128>,
    pub surface_generation: u64,
    pub cached_roots: Seq<u128>,
}

/// What one cursor-relative mutation does to the state: nothing at all
/// when no shape is selected or the selected identity is not stored;
/// otherwise it rewrites exactly the selected shape.
pub open spec fn spec_apply_mutator(v: StateView, m: Mutator) -> StateView {
    match v.current {
        None => v,
        Some(id) => if has_id(v.shapes, id) {
            StateView { shapes: spec_update_shape(v.shapes, id, m), ..v }
        } else {
            v
        },
    }
}

/// A sequence of cursor-relative mutations, applied in order.
pub open spec fn spec_apply_mutators(v: StateView, calls: Seq<Mutator>) -> StateView
    decreases calls.len(),
{
    if calls.len() == 0 {
        v
    } else {
        spec_apply_mutators(spec_apply_mutator(v, calls[0]), calls.drop_first())
    }
}

/// Any sequence of cursor-relative mutations issued while no shape has
/// ever been selected leaves the state unchanged: no shape is created and
/// no shape is mutated.
pub proof fn lemma_mutators_without_select_are_noops(v: StateView, calls: Seq<Mutator>)
    requires
        v.current is None,
    ensures
        spec_apply_mutators(v, calls) == v,
    decreases calls.len(),
{
    if calls.len() != 0 {
        lemma_mutators_without_select_are_noops(v, calls.drop_first());
    }
}

/// The select operation on the state value: the cursor moves to `id`, and
/// a default-initialized shape is appended if `id` is new.
pub open spec fn spec_select(v: StateView, id: u128) -> StateView {
    StateView {
        current: Some(id),
        shapes: if has_id(v.shapes, id) {
            v.shapes
        } else {
            v.shapes.push(spec_default_shape(id))
        },
        ..v
    }
}

/// The next surface generation; saturates rather than wraps.
pub open spec fn spec_bump(generation: u64) -> u64 {
    if generation < u64::MAX {
        (generation + 1) as u64
    } else {
        u64::MAX
    }
}

/// The resize operation on the state value: new canvas dimensions, a fresh
/// surface, everything else (the viewport above all) untouched.
pub open spec fn spec_resize(v: StateView, width: i32, height: i32) -> StateView {
    StateView { width, height, surface_generation: spec_bump(v.surface_generation), ..v }
}

/// The navigate operation on the state value: the cached root working set
/// is recomputed from the stored shapes; nothing else moves.
pub open spec fn spec_navigate(v: StateView) -> StateView {
    StateView { cached_roots: spec_root_ids(v.shapes), ..v }
}

/// Navigation is idempotent: with no intervening change, recomputing the
/// cached state again is a no-op redo.
pub proof fn lemma_navigate_idempotent(v: StateView)
    ensures
        spec_navigate(spec_navigate(v)) == spec_navigate(v),
{
}

/// Resizing keeps the viewport and the scene: a frame rendered after
/// `resize_canvas(width, height)` carries the new dimensions and the same
/// operations as before, and zoom and pan are unchanged.
pub proof fn lemma_resize_keeps_view_and_scene(v: StateView, width: i32, height: i32)
    ensures
        spec_resize(v, width, height).viewbox == v.viewbox,
        spec_resize(v, width, height).shapes == v.shapes,
        spec_render(spec_resize(v, width, height).shapes) == spec_render(v.shapes),
        spec_resize(v, width, height).width == width,
        spec_resize(v, width, height).height == height,
{
}

/// One rendered frame: the flat operation list, and the canvas dimensions
/// the backend surface must have.
pub struct Frame {
    pub width: i32,
    pub height: i32,
    pub ops: Vec<RenderOp>,
}

/// The singleton created by `init` and driven by the host.
pub struct State {
    arena: ShapeArena,
    viewbox: ViewBox,
    width: i32,
    height: i32,
    debug: u32,
    current: Option<u128>,
    surface_generation: u64,
    cached_roots: Vec<u128>,
}

impl View for State {
    type V = StateView;

    closed spec fn view(&self) -> StateView {
        StateView {
            shapes: self.arena@,
            viewbox: self.viewbox,
            width: self.width,
            height: self.height,
            debug: self.debug,
            current: self.current,
            surface_generation: self.surface_generation,
            cached_roots: self.cached_roots@,
        }
    }
}

/// Rewriting the shape at one position is rewriting the (unique) shape
/// with its identity.
proof fn lemma_update_at_is_update_shape(s: Seq<ShapeView>, id: u128, i: int, m: Mutator)
    requires
        unique_ids(s),
        0 <= i < s.len(),
        s[i].id == id,
    ensures
        s.update(i, spec_apply_to_shape(s[i], m)) == spec_update_shape(s, id, m),
{
    assert forall|j: int| 0 <= j < s.len() && j != i implies s[j].id != id by {
        if j < i {
            assert(s[j].id != s[i].id);
        } else {
            assert(s[i].id != s[j].id);
        }
    }
    assert(s.update(i, spec_apply_to_shape(s[i], m)) =~= spec_update_shape(s, id, m));
}

impl State {
    /// The arena's internal index is consistent.
    pub closed spec fn wf(&self) -> bool {
        self.arena.wf()
    }

    /// A fresh state with an arena preallocated for `capacity` shapes, no
    /// shape selected, the default viewport, and a first surface.
    pub fn with_capacity(width: i32, height: i32, debug: u32, capacity: usize) -> (s: State)
        ensures
            s.wf(),
            s@ == (StateView {
                shapes: Seq::<ShapeView>::empty(),
                viewbox: ViewBox::spec_default(),
                width,
                height,
                debug,
                current: None::<u128>,
                surface_generation: 0u64,
                cached_roots: Seq::<u128>::empty(),
            }),
    {
        let s = State {
            arena: ShapeArena::with_capacity(capacity),
            viewbox: ViewBox::new(),
            width,
            height,
            debug,
            current: None,
            surface_generation: 0,
            cached_roots: Vec::new(),
        };
        proof {
            assert(s.cached_roots@ =~= Seq::<u128>::empty());
        }
        s
    }

    /// Applies one cursor-relative mutation: resolves the cursor, then
    /// rewrites the selected shape; a documented no-op when no shape has
    /// ever been selected.
    fn mutate(&mut self, m: Mutator)
        requires
            old(self).wf(),
        ensures
            final(self).wf(),
            final(self)@ == spec_apply_mutator(old(self)@, m),
    {
        match self.current {
            None => {},
            Some(id) => {
                match self.arena.lookup(id) {
                    None => {},
                    Some(i) => {
                        proof {
                            self.arena.lemma_wf_unique();
                        }
                        let ghost s0 = self.arena@;
                        match m {
                            Mutator::SetSelrect { left, top, right, bottom } => {
                                self.arena.set_selrect_at(i, left, top, right, bottom);
                            },
                            Mutator::SetRotation { rotation } => {
                                self.arena.set_rotation_at(i, rotation);
                            },
                            Mutator::SetTransform { transform } => {
                                self.arena.set_transform_at(i, transform);
                            },
                            Mutator::AddChild { child } => {
                                self.arena.push_child_at(i, child);
                            },
                            Mutator::ClearChildren => {
                                self.arena.clear_children_at(i);
                            },
                            Mutator::AddSolidFill { r, g, b, alpha } => {
                                let a = alpha_byte(alpha);
                                self.arena.push_fill_at(i, Fill::Solid(Color { r, g, b, a }));
                            },
                            Mutator::ClearFills => {
                                self.arena.clear_fills_at(i);
                            },
                            Mutator::SetBlendMode { code } => {
                                let mode = BlendMode::from_code(code);
                                self.arena.set_blend_mode_at(i, mode);
                            },
                        }
                        proof {
                            assert(self.arena@ == s0.update(
                                i as int,
                                spec_apply_to_shape(s0[i as int], m),
                            ));
                            lemma_update_at_is_update_shape(s0, id, i as int, m);
                        }
                    },
                }
            },
        }
    }

    /// Selects (creating if new) the shape with identity `id` as the
    /// mutation target. When `id` is new, the created shape has default
    /// fields: zero rectangle, zero rotation, identity transform, no
    /// children, no fills, default blend mode. Never fails.
    pub fn use_shape(&mut self, id: u128)
        requires
            old(self).wf(),
            old(self)@.shapes.len() < usize::MAX,
        ensures
            final(self).wf(),
            final(self)@ == spec_select(old(self)@, id),
    {
        self.arena.select(id);
        self.current = Some(id);
    }

    /// Replaces the selected shape's bounding rectangle; a no-op without a
    /// selection.
    pub fn set_shape_selrect(&mut self, left: u32, top: u32, right: u32, bottom: u32)
        requires
            old(self).wf(),
        ensures
            final(self).wf(),
            final(self)@ == spec_apply_mutator(
                old(self)@,
                Mutator::SetSelrect { left, top, right, bottom },
            ),
    {
        self.mutate(Mutator::SetSelrect { left, top, right, bottom });
    }

    /// Replaces the selected shape's rotation; a no-op without a
    /// selection.
    pub fn set_shape_rotation(&mut self, rotation: u32)
        requires
            old(self).wf(),
        ensures
            final(self).wf(),
            final(self)@ == spec_apply_mutator(old(self)@, Mutator::SetRotation { rotation }),
    {
        self.mutate(Mutator::SetRotation { rotation });
    }

    /// Replaces the selected shape's affine transform component-wise; a
    /// no-op without a selection.
    pub fn set_shape_transform(&mut self, a: u32, b: u32, c: u32, d: u32, e: u32, f: u32)
        requires
            old(self).wf(),
        ensures
            final(self).wf(),
            final(self)@ == spec_apply_mutator(
                old(self)@,
                Mutator::SetTransform { transform: Matrix { a, b, c, d, e, f } },
            ),
    {
        self.mutate(Mutator::SetTransform { transform: Matrix { a, b, c, d, e, f } });
    }

    /// Appends a child identity to the selected shape; duplicates are kept
    /// and order is preserved. A no-op without a selection.
    pub fn add_shape_child(&mut self, id: u128)
        requires
            old(self).wf(),
        ensures
            final(self).wf(),
            final(self)@ == spec_apply_mutator(old(self)@, Mutator::AddChild { child: id }),
    {
        self.mutate(Mutator::AddChild { child: id });
    }

    /// Empties the selected shape's child list; a no-op without a
    /// selection.
    pub fn clear_shape_children(&mut self)
        requires
            old(self).wf(),
        ensures
            final(self).wf(),
            final(self)@ == spec_apply_mutator(old(self)@, Mutator::ClearChildren),
    {
        self.mutate(Mutator::ClearChildren);
    }

    /// Appends a solid fill at the end of the selected shape's paint
    /// order; the stored alpha is `floor(a * 255)` clamped to one byte,
    /// where `a` is the value whose bit pattern is `alpha`. A no-op
    /// without a selection.
    pub fn add_shape_solid_fill(&mut self, r: u8, g: u8, b: u8, alpha: u32)
        requires
            old(self).wf(),
        ensures
            final(self).wf(),
            final(self)@ == spec_apply_mutator(
                old(self)@,
                Mutator::AddSolidFill { r, g, b, alpha },
            ),
    {
        self.mutate(Mutator::AddSolidFill { r, g, b, alpha });
    }

    /// Empties the selected shape's fill list; a no-op without a
    /// selection.
    pub fn clear_shape_fills(&mut self)
        requires
            old(self).wf(),
        ensures
            final(self).wf(),
            final(self)@ == spec_apply_mutator(old(self)@, Mutator::ClearFills),
    {
        self.mutate(Mutator::ClearFills);
    }

    /// Replaces the selected shape's blend mode; an unrecognized numeric
    /// code maps to the default mode rather than failing. A no-op without
    /// a selection.
    pub fn set_shape_blend_mode(&mut self, code: i32)
        requires
            old(self).wf(),
        ensures
            final(self).wf(),
            final(self)@ == spec_apply_mutator(old(self)@, Mutator::SetBlendMode { code }),
    {
        self.mutate(Mutator::SetBlendMode { code });
    }

    /// Atomic replace of zoom and pan (a view jump).
    pub fn set_view(&mut self, zoom: u32, x: u32, y: u32)
        requires
            old(self).wf(),
        ensures
            final(self).wf(),
            final(self)@ == (StateView { viewbox: ViewBox { zoom, x, y }, ..old(self)@ }),
    {
        self.viewbox.set_all(zoom, x, y);
    }

    /// Replaces the zoom; the pan is left untouched.
    pub fn set_view_zoom(&mut self, zoom: u32)
        requires
            old(self).wf(),
        ensures
            final(self).wf(),
            final(self)@ == (StateView {
                viewbox: ViewBox { zoom, ..old(self)@.viewbox },
                ..old(self)@
            }),
    {
        self.viewbox.set_zoom(zoom);
    }

    /// Replaces the pan; the zoom is left untouched.
    pub fn set_view_xy(&mut self, x: u32, y: u32)
        requires
            old(self).wf(),
        ensures
            final(self).wf(),
            final(self)@ == (StateView {
                viewbox: ViewBox { x, y, ..old(self)@.viewbox },
                ..old(self)@
            }),
    {
        self.viewbox.set_xy(x, y);
    }

    /// Updates the canvas dimensions and recreates the backend surface to
    /// match; the viewport's zoom and pan and the stored shapes are left
    /// untouched.
    pub fn resize_canvas(&mut self, width: i32, height: i32)
        requires
            old(self).wf(),
        ensures
            final(self).wf(),
            final(self)@ == spec_resize(old(self)@, width, height),
    {
        self.width = width;
        self.height = height;
        self.bump_surface_generation();
    }

    /// Discards and recreates backend drawing-surface state; neither the
    /// shape arena nor the viewport moves.
    pub fn reset_canvas(&mut self)
        requires
            old(self).wf(),
        ensures
            final(self).wf(),
            final(self)@ == (StateView {
                surface_generation: spec_bump(old(self)@.surface_generation),
                ..old(self)@
            }),
    {
        self.bump_surface_generation();
    }

    /// Counts one more backend surface; saturates rather than wraps.
    fn bump_surface_generation(&mut self)
        ensures
            *final(self) == (State {
                surface_generation: spec_bump(old(self).surface_generation),
                ..*old(self)
            }),
    {
        if self.surface_generation < u64::MAX {
            self.surface_generation = self.surface_generation + 1;
        }
    }

    /// Recomputes the cached root working set from the stored shapes, so
    /// the next frame starts from up-to-date navigation state. Idempotent,
    /// and safe to call with no pending viewport change.
    pub fn navigate(&mut self)
        requires
            old(self).wf(),
        ensures
            final(self).wf(),
            final(self)@ == spec_navigate(old(self)@),
    {
        self.cached_roots = root_ids(&self.arena);
    }

    /// Produces one frame reflecting the stored shapes: the operation list
    /// of the root-to-leaf walk, sized to the current canvas dimensions.
    /// Total for every arena contents: cycles are broken by the per-frame
    /// visited guard and dangling child identities are skipped.
    pub fn render(&self) -> (frame: Frame)
        requires
            self.wf(),
        ensures
            frame.width == self@.width,
            frame.height == self@.height,
            frame.ops@ == spec_render(self@.shapes),
    {
        Frame { width: self.width, height: self.height, ops: render_plan(&self.arena) }
    }

    /// The identity selected by the most recent `use_shape`, if any.
    pub fn current_id(&self) -> (r: Option<u128>)
        ensures
            r == self@.current,
    {
        self.current
    }

    /// How many shapes are stored.
    pub fn shape_count(&self) -> (n: usize)
        ensures
            n == self@.shapes.len(),
    {
        self.arena.len()
    }

    /// A borrow of the stored shape with identity `id`, if any.
    pub fn shape_by_id(&self, id: u128) -> (r: Option<&Shape>)
        requires
            self.wf(),
        ensures
            match r {
                Some(sh) => has_id(self@.shapes, id) && crate::render::find_shape(
                    self@.shapes,
                    id,
                ) == Some(sh@),
                None => !has_id(self@.shapes, id),
            },
    {
        match self.arena.lookup(id) {
            None => None,
            Some(i) => {
                proof {
                    self.arena.lemma_wf_unique();
                    crate::render::lemma_find_shape_at(self@.shapes, id, i as int);
                }
                Some(self.arena.shape_at(i))
            },
        }
    }

    /// The current viewport.
    pub fn view_box(&self) -> (v: ViewBox)
        ensures
            v == self@.viewbox,
    {
        self.viewbox
    }

    /// The current canvas width.
    pub fn canvas_width(&self) -> (w: i32)
        ensures
            w == self@.width,
    {
        self.width
    }

    /// The current canvas height.
    pub fn canvas_height(&self) -> (h: i32)
        ensures
            h == self@.height,
    {
        self.height
    }

    /// How many backend surfaces have been created so far.
    pub fn surface_generation(&self) -> (g: u64)
        ensures
            g == self@.surface_generation,
    {
        self.surface_generation
    }

    /// The cached root working set, as last recomputed by `navigate`.
    pub fn cached_roots(&self) -> (r: &Vec<u128>)
        ensures
            r@ == self@.cached_roots,
    {
        &self.cached_roots
    }
}

/// Constructs the state, with the arena preallocated for interactive
/// editing (room for 2048 shapes before it grows).
pub fn init(width: i32, height: i32, debug: u32) -> (s: State)
    ensures
        s.wf(),
        s@ == (StateView {
            shapes: Seq::<ShapeView>::empty(),
            viewbox: ViewBox::spec_default(),
            width,
            height,
            debug,
            current: None::<u128>,
            surface_generation: 0u64,
            cached_roots: Seq::<u128>::empty(),
        }),
{
    State::with_capacity(width, height, debug, 2048)
}

} // verus!
