//! The shape arena: the owning store of all shapes, keyed by identity.
//!
//! Shapes live in a vector in insertion order; a hash index maps each
//! identity to its position, giving expected O(1) lookup. The arena's view
//! is the sequence of shape views in insertion order; identities in it are
//! unique.

use crate::shapes::{BlendMode, Fill, Shape, ShapeView, spec_default_shape};
use crate::geom::{Matrix, Rect};
use std::collections::HashMap;
use vstd::prelude::*;

verus! {

broadcast use vstd::std_specs::hash::group_hash_axioms;

/// Whether some shape in `s` carries identity `id`.
pub open spec fn has_id(s: Seq<ShapeView>, id: u128) -> bool {
    exists|i: int| 0 <= i < s.len() && s[i].id == id
}

/// Whether no two shapes in `s` share an identity.
pub open spec fn unique_ids(s: Seq<ShapeView>) -> bool {
    forall|i: int, j: int| 0 <= i < j < s.len() ==> s[i].id != s[j].id
}

/// The capacity-preallocated store of shapes. All mutation of a stored
/// shape goes through the positional methods below, which keep the index
/// consistent with the vector.
pub struct ShapeArena {
    shapes: Vec<Shape>,
    index: HashMap<u128, usize>,
}

impl View for ShapeArena {
    type V = Seq<ShapeView>;

    closed spec fn view(&self) -> Seq<ShapeView> {
        self.shapes@.map_values(|s: Shape| s@)
    }
}

impl ShapeArena {
    /// The index is exactly the identity-to-position map of the vector.
    pub closed spec fn wf(&self) -> bool {
        &&& forall|i: int|
            0 <= i < self.shapes@.len() ==> self.index@.contains_key(
                #[trigger] self.shapes@[i].id,
            ) && self.index@[self.shapes@[i].id] == i
        &&& forall|id: u128|
            #[trigger] self.index@.contains_key(id) ==> self.index@[id] < self.shapes@.len()
                && self.shapes@[self.index@[id] as int].id == id
    }

    /// A well-formed arena holds no two shapes with the same identity.
    pub proof fn lemma_wf_unique(&self)
        requires
            self.wf(),
        ensures
            unique_ids(self@),
    {
        assert forall|i: int, j: int| 0 <= i < j < self@.len() implies self@[i].id != self@[j].id
        by {
            assert(self@[i].id == self.shapes@[i].id);
            assert(self@[j].id == self.shapes@[j].id);
        }
    }

    /// An empty arena preallocated for `capacity` shapes.
    pub fn with_capacity(capacity: usize) -> (a: ShapeArena)
        ensures
            a.wf(),
            a@ == Seq::<ShapeView>::empty(),
    {
        let a = ShapeArena {
            shapes: Vec::with_capacity(capacity),
            index: HashMap::with_capacity(capacity),
        };
        proof {
            assert(a@ =~= Seq::<ShapeView>::empty());
        }
        a
    }

    /// The number of shapes stored.
    pub fn len(&self) -> (n: usize)
        ensures
            n == self@.len(),
    {
        self.shapes.len()
    }

    /// The position of the shape with identity `id`, if one is stored.
    pub fn lookup(&self, id: u128) -> (r: Option<usize>)
        requires
            self.wf(),
        ensures
            match r {
                Some(i) => i < self@.len() && self@[i as int].id == id,
                None => !has_id(self@, id),
            },
    {
        match self.index.get(&id) {
            Some(i) => {
                let i = *i;
                proof {
                    assert(self.shapes@[i as int].id == id);
                    assert(self@[i as int] == self.shapes@[i as int]@);
                }
                Some(i)
            },
            None => {
                proof {
                    assert forall|j: int| 0 <= j < self@.len() implies self@[j].id != id by {
                        assert(self@[j] == self.shapes@[j]@);
                        assert(self.index@.contains_key(self.shapes@[j].id));
                    }
                }
                None
            },
        }
    }

    /// A borrow of the shape at position `i`.
    pub fn shape_at(&self, i: usize) -> (s: &Shape)
        requires
            i < self@.len(),
        ensures
            s@ == self@[i as int],
    {
        &self.shapes[i]
    }

    /// The select operation: the position of the shape with identity `id`,
    /// inserting a new default-initialized shape at that identity first if
    /// none is stored. Never fails.
    pub fn select(&mut self, id: u128) -> (i: usize)
        requires
            old(self).wf(),
            old(self)@.len() < usize::MAX,
        ensures
            final(self).wf(),
            i < final(self)@.len(),
            final(self)@[i as int].id == id,
            has_id(old(self)@, id) ==> final(self)@ == old(self)@,
            !has_id(old(self)@, id) ==> final(self)@ == old(self)@.push(spec_default_shape(id))
                && i == old(self)@.len(),
    {
        match self.lookup(id) {
            Some(i) => i,
            None => {
                let i = self.shapes.len();
                self.shapes.push(Shape::new(id));
                self.index.insert(id, i);
                proof {
                    assert(self@ =~= old(self)@.push(spec_default_shape(id)));
                    assert forall|j: int|
                        0 <= j < self.shapes@.len() implies self.index@.contains_key(
                        #[trigger] self.shapes@[j].id,
                    ) && self.index@[self.shapes@[j].id] == j by {
                        if j < i {
                            assert(old(self).shapes@[j].id == self.shapes@[j].id);
                            assert(self.shapes@[j].id != id) by {
                                assert(old(self)@[j].id == old(self).shapes@[j].id);
                            }
                        }
                    }
                }
                i
            },
        }
    }

    /// Replaces the bounding rectangle of the shape at position `i`.
    pub fn set_selrect_at(&mut self, i: usize, left: u32, top: u32, right: u32, bottom: u32)
        requires
            old(self).wf(),
            i < old(self)@.len(),
        ensures
            final(self).wf(),
            final(self)@ == old(self)@.update(
                i as int,
                ShapeView { selrect: Rect { left, top, right, bottom }, ..old(self)@[i as int] },
            ),
    {
        let s = &mut self.shapes[i];
        s.selrect.set_ltrb(left, top, right, bottom);
        proof {
            self.lemma_update_view(*old(self), i);
        }
    }

    /// Replaces the rotation of the shape at position `i`.
    pub fn set_rotation_at(&mut self, i: usize, rotation: u32)
        requires
            old(self).wf(),
            i < old(self)@.len(),
        ensures
            final(self).wf(),
            final(self)@ == old(self)@.update(
                i as int,
                ShapeView { rotation, ..old(self)@[i as int] },
            ),
    {
        let s = &mut self.shapes[i];
        s.rotation = rotation;
        proof {
            self.lemma_update_view(*old(self), i);
        }
    }

    /// Replaces the affine transform of the shape at position `i`
    /// component-wise.
    pub fn set_transform_at(&mut self, i: usize, m: Matrix)
        requires
            old(self).wf(),
            i < old(self)@.len(),
        ensures
            final(self).wf(),
            final(self)@ == old(self)@.update(
                i as int,
                ShapeView { transform: m, ..old(self)@[i as int] },
            ),
    {
        let s = &mut self.shapes[i];
        s.transform = m;
        proof {
            self.lemma_update_view(*old(self), i);
        }
    }

    /// Appends a child identity to the shape at position `i`.
    pub fn push_child_at(&mut self, i: usize, child: u128)
        requires
            old(self).wf(),
            i < old(self)@.len(),
        ensures
            final(self).wf(),
            final(self)@ == old(self)@.update(
                i as int,
                ShapeView {
                    children: old(self)@[i as int].children.push(child),
                    ..old(self)@[i as int]
                },
            ),
    {
        let s = &mut self.shapes[i];
        s.add_child(child);
        proof {
            self.lemma_update_view(*old(self), i);
        }
    }

    /// Empties the child list of the shape at position `i`.
    pub fn clear_children_at(&mut self, i: usize)
        requires
            old(self).wf(),
            i < old(self)@.len(),
        ensures
            final(self).wf(),
            final(self)@ == old(self)@.update(
                i as int,
                ShapeView { children: Seq::empty(), ..old(self)@[i as int] },
            ),
    {
        let s = &mut self.shapes[i];
        s.clear_children();
        proof {
            self.lemma_update_view(*old(self), i);
        }
    }

    /// Appends a fill to the shape at position `i` (always at the end of
    /// the paint order).
    pub fn push_fill_at(&mut self, i: usize, fill: Fill)
        requires
            old(self).wf(),
            i < old(self)@.len(),
        ensures
            final(self).wf(),
            final(self)@ == old(self)@.update(
                i as int,
                ShapeView { fills: old(self)@[i as int].fills.push(fill), ..old(self)@[i as int] },
            ),
    {
        let s = &mut self.shapes[i];
        s.add_fill(fill);
        proof {
            self.lemma_update_view(*old(self), i);
        }
    }

    /// Empties the fill list of the shape at position `i`.
    pub fn clear_fills_at(&mut self, i: usize)
        requires
            old(self).wf(),
            i < old(self)@.len(),
        ensures
            final(self).wf(),
            final(self)@ == old(self)@.update(
                i as int,
                ShapeView { fills: Seq::empty(), ..old(self)@[i as int] },
            ),
    {
        let s = &mut self.shapes[i];
        s.clear_fills();
        proof {
            self.lemma_update_view(*old(self), i);
        }
    }

    /// Replaces the blend mode of the shape at position `i`.
    pub fn set_blend_mode_at(&mut self, i: usize, mode: BlendMode)
        requires
            old(self).wf(),
            i < old(self)@.len(),
        ensures
            final(self).wf(),
            final(self)@ == old(self)@.update(
                i as int,
                ShapeView { blend_mode: mode, ..old(self)@[i as int] },
            ),
    {
        let s = &mut self.shapes[i];
        s.set_blend_mode(mode);
        proof {
            self.lemma_update_view(*old(self), i);
        }
    }

    /// After an in-place update of the shape at position `i` that keeps its
    /// identity, the arena view is the old view updated at `i`, and
    /// well-formedness carries over.
    proof fn lemma_update_view(&self, prev: ShapeArena, i: usize)
        requires
            prev.wf(),
            i < prev.shapes@.len(),
            self.shapes@.len() == prev.shapes@.len(),
            self.shapes@ == prev.shapes@.update(i as int, self.shapes@[i as int]),
            self.shapes@[i as int].id == prev.shapes@[i as int].id,
            self.index == prev.index,
        ensures
            self.wf(),
            self@ == prev@.update(i as int, self.shapes@[i as int]@),
    {
        assert(self@ =~= prev@.update(i as int, self.shapes@[i as int]@));
        assert forall|j: int|
            0 <= j < self.shapes@.len() implies self.index@.contains_key(
            #[trigger] self.shapes@[j].id,
        ) && self.index@[self.shapes@[j].id] == j by {
            assert(self.shapes@[j].id == prev.shapes@[j].id);
        }
        assert forall|id: u128| #[trigger]
            self.index@.contains_key(id) implies self.index@[id] < self.shapes@.len()
            && self.shapes@[self.index@[id] as int].id == id by {
            assert(self.shapes@[self.index@[id] as int].id
                == prev.shapes@[self.index@[id] as int].id);
        }
    }
}

} // verus!
