//! The render planner: walks the shape forest and emits a flat list of
//! drawing operations for the rasterization backend.
//!
//! Roots are the shapes that no shape lists as a child, taken in insertion
//! order. Each root is traversed depth-first, children in list order (the
//! paint order). A per-frame visited set guards the walk: a shape is
//! painted at most once per frame, so cyclic child lists terminate, and a
//! child identity with no stored shape is skipped without aborting the
//! frame.

use crate::arena::{has_id, unique_ids, ShapeArena};
use crate::geom::{Matrix, Rect};
use crate::shapes::{BlendMode, Fill, ShapeView};
use std::collections::HashSet;
use vstd::prelude::*;
use vstd::set_lib::lemma_len_subset;

verus! {

broadcast use vstd::std_specs::hash::group_hash_axioms, vstd::seq_lib::seq_to_set_is_finite;

/// One drawing operation. A shape contributes `Begin`, one `Fill` per entry
/// of its fill list in order, the operations of its children in order, and
/// `End`. The backend keeps a matrix/layer stack: `Begin` opens a group
/// with the shape's geometry, transform and blend mode, `End` closes it.
#[derive(Clone, Copy, PartialEq, Eq, Structural, Debug)]
pub enum RenderOp {
    Begin { id: u128, selrect: Rect, rotation: u32, transform: Matrix, blend_mode: BlendMode },
    Fill(Fill),
    End,
}

/// The `Begin` operation for a shape.
pub open spec fn begin_op(sh: ShapeView) -> RenderOp {
    RenderOp::Begin {
        id: sh.id,
        selrect: sh.selrect,
        rotation: sh.rotation,
        transform: sh.transform,
        blend_mode: sh.blend_mode,
    }
}

/// The fill operations of a fill list, in paint order.
pub open spec fn fill_ops(fills: Seq<Fill>) -> Seq<RenderOp> {
    fills.map_values(|f: Fill| RenderOp::Fill(f))
}

/// The set of identities stored in `s`.
pub open spec fn ids_of(s: Seq<ShapeView>) -> Set<u128> {
    s.map_values(|sh: ShapeView| sh.id).to_set()
}

/// Membership in `ids_of` is exactly `has_id`.
pub proof fn lemma_ids_of_has_id(s: Seq<ShapeView>, id: u128)
    ensures
        ids_of(s).contains(id) <==> has_id(s, id),
{
    let m = s.map_values(|sh: ShapeView| sh.id);
    if has_id(s, id) {
        let i = choose|i: int| 0 <= i < s.len() && s[i].id == id;
        assert(m[i] == id);
        assert(m.contains(id));
    }
    if m.contains(id) {
        let i = choose|i: int| 0 <= i < m.len() && m[i] == id;
        assert(s[i].id == id);
    }
}

/// How many stored identities the walk has not yet visited; the walk's
/// termination measure.
pub open spec fn unvisited_count(s: Seq<ShapeView>, visited: Set<u128>) -> nat {
    ids_of(s).difference(visited).len()
}

/// Visiting a stored, not-yet-visited identity strictly shrinks the
/// measure.
pub proof fn lemma_unvisited_insert(s: Seq<ShapeView>, visited: Set<u128>, id: u128)
    requires
        has_id(s, id),
        !visited.contains(id),
    ensures
        unvisited_count(s, visited.insert(id)) < unvisited_count(s, visited),
{
    let ids = ids_of(s);
    let d = ids.difference(visited);
    lemma_ids_of_has_id(s, id);
    lemma_len_subset(d, ids);
    assert(ids.difference(visited.insert(id)) =~= d.remove(id));
    vstd::set::axiom_set_remove_len(d, id);
}

/// Growing the visited set never grows the measure.
pub proof fn lemma_unvisited_subset(s: Seq<ShapeView>, v1: Set<u128>, v2: Set<u128>)
    requires
        v1.subset_of(v2),
    ensures
        unvisited_count(s, v2) <= unvisited_count(s, v1),
{
    let ids = ids_of(s);
    lemma_len_subset(ids.difference(v1), ids);
    lemma_len_subset(ids.difference(v2), ids.difference(v1));
}

/// The first shape in `s` carrying identity `id`, if any.
pub open spec fn find_shape(s: Seq<ShapeView>, id: u128) -> Option<ShapeView>
    decreases s.len(),
{
    if s.len() == 0 {
        None
    } else if s[0].id == id {
        Some(s[0])
    } else {
        find_shape(s.drop_first(), id)
    }
}

/// `find_shape` succeeds exactly on stored identities, and returns a shape
/// carrying the identity looked up.
pub proof fn lemma_find_shape(s: Seq<ShapeView>, id: u128)
    ensures
        match find_shape(s, id) {
            Some(sh) => sh.id == id && has_id(s, id),
            None => !has_id(s, id),
        },
    decreases s.len(),
{
    if s.len() > 0 && s[0].id != id {
        lemma_find_shape(s.drop_first(), id);
        let t = s.drop_first();
        if has_id(s, id) {
            let i = choose|i: int| 0 <= i < s.len() && s[i].id == id;
            assert(t[i - 1] == s[i]);
            assert(has_id(t, id));
        }
        if has_id(t, id) {
            let i = choose|i: int| 0 <= i < t.len() && t[i].id == id;
            assert(s[i + 1] == t[i]);
            assert(has_id(s, id));
        }
    }
}

/// With unique identities, `find_shape` returns the shape at any position
/// carrying the identity looked up.
pub proof fn lemma_find_shape_at(s: Seq<ShapeView>, id: u128, i: int)
    requires
        unique_ids(s),
        0 <= i < s.len(),
        s[i].id == id,
    ensures
        find_shape(s, id) == Some(s[i]),
    decreases s.len(),
{
    if i > 0 {
        assert(s[0].id != id);
        let t = s.drop_first();
        assert(t[i - 1] == s[i]);
        assert forall|p: int, q: int| 0 <= p < q < t.len() implies t[p].id != t[q].id by {
            assert(t[p] == s[p + 1] && t[q] == s[q + 1]);
        }
        lemma_find_shape_at(t, id, i - 1);
    }
}

/// Whether some shape in `s` lists `id` as a child.
pub open spec fn referenced(s: Seq<ShapeView>, id: u128) -> bool {
    exists|i: int, j: int|
        0 <= i < s.len() && 0 <= j < s[i].children.len() && s[i].children[j] == id
}

/// The walk from one identity: nothing if it was already visited or is not
/// stored; otherwise its `Begin`, its fills, its children's operations, and
/// `End`, together with the enlarged visited set.
pub open spec fn spec_visit(s: Seq<ShapeView>, visited: Set<u128>, id: u128) -> (
    Set<u128>,
    Seq<RenderOp>,
)
    decreases unvisited_count(s, visited), 0int, 0int,
    via spec_visit_decreases
{
    if visited.contains(id) {
        (visited, Seq::<RenderOp>::empty())
    } else {
        match find_shape(s, id) {
            None => (visited, Seq::<RenderOp>::empty()),
            Some(sh) => {
                let r = spec_visit_list(s, visited.insert(id), sh.children);
                (r.0, seq![begin_op(sh)] + fill_ops(sh.fills) + r.1 + seq![RenderOp::End])
            },
        }
    }
}

/// The walk over a child list, left to right, threading the visited set.
pub open spec fn spec_visit_list(s: Seq<ShapeView>, visited: Set<u128>, ids: Seq<u128>) -> (
    Set<u128>,
    Seq<RenderOp>,
)
    decreases unvisited_count(s, visited), 1int, ids.len(),
    via spec_visit_list_decreases
{
    if ids.len() == 0 {
        (visited, Seq::<RenderOp>::empty())
    } else {
        let r1 = spec_visit(s, visited, ids[0]);
        let r2 = spec_visit_list(s, visited.union(r1.0), ids.drop_first());
        (r2.0, r1.1 + r2.1)
    }
}

#[via_fn]
proof fn spec_visit_decreases(s: Seq<ShapeView>, visited: Set<u128>, id: u128) {
    if !visited.contains(id) && find_shape(s, id) is Some {
        lemma_find_shape(s, id);
        lemma_unvisited_insert(s, visited, id);
    }
}

#[via_fn]
proof fn spec_visit_list_decreases(s: Seq<ShapeView>, visited: Set<u128>, ids: Seq<u128>) {
    assert forall|u: Set<u128>|
        unvisited_count(s, #[trigger] visited.union(u)) <= unvisited_count(s, visited) by {
        lemma_unvisited_subset(s, visited, visited.union(u));
    }
}

/// The walk over the whole arena from position `i` on: every shape that no
/// shape lists as a child is taken as a root, in insertion order.
pub open spec fn spec_visit_roots(s: Seq<ShapeView>, visited: Set<u128>, i: int) -> (
    Set<u128>,
    Seq<RenderOp>,
)
    decreases s.len() - i,
    via spec_visit_roots_decreases
{
    if !(0 <= i < s.len()) {
        (visited, Seq::<RenderOp>::empty())
    } else {
        let r1 = if referenced(s, s[i].id) {
            (visited, Seq::<RenderOp>::empty())
        } else {
            spec_visit(s, visited, s[i].id)
        };
        let r2 = spec_visit_roots(s, visited.union(r1.0), i + 1);
        (r2.0, r1.1 + r2.1)
    }
}

#[via_fn]
proof fn spec_visit_roots_decreases(s: Seq<ShapeView>, visited: Set<u128>, i: int) {
}

/// The operations of one frame over the stored shapes `s`.
pub open spec fn spec_render(s: Seq<ShapeView>) -> Seq<RenderOp> {
    spec_visit_roots(s, Set::<u128>::empty(), 0).1
}

/// The walk only ever grows the visited set.
pub proof fn lemma_visit_grows(s: Seq<ShapeView>, visited: Set<u128>, id: u128)
    ensures
        visited.subset_of(spec_visit(s, visited, id).0),
    decreases unvisited_count(s, visited), 0int, 0int,
{
    if !visited.contains(id) && find_shape(s, id) is Some {
        lemma_find_shape(s, id);
        lemma_unvisited_insert(s, visited, id);
        let sh = find_shape(s, id)->Some_0;
        lemma_visit_list_grows(s, visited.insert(id), sh.children);
    }
}

/// The walk over a list only ever grows the visited set.
pub proof fn lemma_visit_list_grows(s: Seq<ShapeView>, visited: Set<u128>, ids: Seq<u128>)
    ensures
        visited.subset_of(spec_visit_list(s, visited, ids).0),
    decreases unvisited_count(s, visited), 1int, ids.len(),
{
    if ids.len() != 0 {
        lemma_visit_grows(s, visited, ids[0]);
        let r1 = spec_visit(s, visited, ids[0]);
        let v1 = visited.union(r1.0);
        lemma_unvisited_subset(s, visited, v1);
        lemma_visit_list_grows(s, v1, ids.drop_first());
    }
}

/// Walking a list with one more identity at its end is walking the list,
/// then walking that identity from the list's final visited set.
pub proof fn lemma_visit_list_snoc(s: Seq<ShapeView>, visited: Set<u128>, ids: Seq<u128>, x: u128)
    ensures
        ({
            let r1 = spec_visit_list(s, visited, ids);
            let r2 = spec_visit(s, r1.0, x);
            spec_visit_list(s, visited, ids.push(x)).0 == r2.0 && spec_visit_list(
                s,
                visited,
                ids.push(x),
            ).1 == r1.1 + r2.1
        }),
    decreases ids.len(),
{
    let r1 = spec_visit_list(s, visited, ids);
    let r2 = spec_visit(s, r1.0, x);
    if ids.len() == 0 {
        reveal_with_fuel(spec_visit_list, 3);
        let ra = spec_visit(s, visited, x);
        lemma_visit_grows(s, visited, x);
        assert(visited.union(ra.0) =~= ra.0);
        assert(ids.push(x).drop_first() =~= Seq::<u128>::empty());
        assert(ids.push(x)[0] == x);
        assert(spec_visit_list(s, visited, ids.push(x)).0 == ra.0);
        assert(spec_visit_list(s, visited, ids.push(x)).1 =~= ra.1);
        assert(r1.1 =~= Seq::<RenderOp>::empty());
        assert(r1.1 + r2.1 =~= ra.1);
    } else {
        let h = ids[0];
        let ra = spec_visit(s, visited, h);
        let va = visited.union(ra.0);
        assert(ids.push(x)[0] == h);
        assert(ids.push(x).drop_first() =~= ids.drop_first().push(x));
        lemma_visit_list_snoc(s, va, ids.drop_first(), x);
        let rb = spec_visit_list(s, va, ids.drop_first());
        assert(spec_visit_list(s, visited, ids.push(x)).1 =~= ra.1 + (rb.1 + spec_visit(
            s,
            rb.0,
            x,
        ).1));
        assert(r1.1 + r2.1 =~= ra.1 + (rb.1 + spec_visit(s, rb.0, x).1));
    }
}

/// The identities of the roots from position `i` on: the shapes that no
/// shape lists as a child, in insertion order.
pub open spec fn spec_root_ids_from(s: Seq<ShapeView>, i: int) -> Seq<u128>
    decreases s.len() - i,
{
    if !(0 <= i < s.len()) {
        Seq::<u128>::empty()
    } else if referenced(s, s[i].id) {
        spec_root_ids_from(s, i + 1)
    } else {
        seq![s[i].id] + spec_root_ids_from(s, i + 1)
    }
}

/// The identities of the roots of `s`, in insertion order.
pub open spec fn spec_root_ids(s: Seq<ShapeView>) -> Seq<u128> {
    spec_root_ids_from(s, 0)
}

/// Computes the root identities: the working set that a frame starts from.
#[verifier::loop_isolation(false)]
pub fn root_ids(arena: &ShapeArena) -> (r: Vec<u128>)
    ensures
        r@ == spec_root_ids(arena@),
{
    let ghost s = arena@;
    let mut r: Vec<u128> = Vec::new();
    let n = arena.len();
    let mut i: usize = 0;
    proof {
        assert(r@ + spec_root_ids_from(s, 0) =~= spec_root_ids_from(s, 0));
    }
    while i < n
        invariant
            i <= n,
            spec_root_ids(s) == r@ + spec_root_ids_from(s, i as int),
        decreases n - i,
    {
        let sh = arena.shape_at(i);
        let ghost r0 = r@;
        if !is_referenced(arena, sh.id) {
            r.push(sh.id);
            proof {
                assert(r@ =~= r0 + seq![s[i as int].id]);
                assert(r0 + (seq![s[i as int].id] + spec_root_ids_from(s, i + 1 as int)) =~= (r0
                    + seq![s[i as int].id]) + spec_root_ids_from(s, i + 1 as int));
            }
        }
        i += 1;
    }
    proof {
        assert(r@ + Seq::<u128>::empty() =~= r@);
    }
    r
}

/// The identities painted by an operation list: one entry per `Begin`, in
/// paint order.
pub open spec fn painted_ids(ops: Seq<RenderOp>) -> Seq<u128>
    decreases ops.len(),
{
    if ops.len() == 0 {
        Seq::<u128>::empty()
    } else {
        painted_ids(ops.drop_last()) + (match ops.last() {
            RenderOp::Begin { id, .. } => seq![id],
            _ => Seq::<u128>::empty(),
        })
    }
}

/// `painted_ids` distributes over concatenation.
pub proof fn lemma_painted_ids_concat(a: Seq<RenderOp>, b: Seq<RenderOp>)
    ensures
        painted_ids(a + b) == painted_ids(a) + painted_ids(b),
    decreases b.len(),
{
    if b.len() == 0 {
        assert(a + b =~= a);
        assert(painted_ids(a) + painted_ids(b) =~= painted_ids(a));
    } else {
        assert((a + b).drop_last() =~= a + b.drop_last());
        assert((a + b).last() == b.last());
        lemma_painted_ids_concat(a, b.drop_last());
        assert(painted_ids(a + b) =~= painted_ids(a) + painted_ids(b));
    }
}

/// A single operation paints its `Begin` identity, or nothing.
pub proof fn lemma_painted_ids_single(op: RenderOp)
    ensures
        painted_ids(seq![op]) == (match op {
            RenderOp::Begin { id, .. } => seq![id],
            _ => Seq::<u128>::empty(),
        }),
{
    reveal_with_fuel(painted_ids, 2);
    assert(seq![op].drop_last() =~= Seq::<RenderOp>::empty());
    match op {
        RenderOp::Begin { id, .. } => {
            assert(painted_ids(seq![op]) =~= seq![id]);
        },
        _ => {
            assert(painted_ids(seq![op]) =~= Seq::<u128>::empty());
        },
    }
}

/// Fill operations paint no identity.
pub proof fn lemma_painted_ids_fill_ops(fills: Seq<Fill>)
    ensures
        painted_ids(fill_ops(fills)) == Seq::<u128>::empty(),
    decreases fills.len(),
{
    if fills.len() == 0 {
        assert(painted_ids(fill_ops(fills)) =~= Seq::<u128>::empty());
    } else {
        assert(fill_ops(fills).drop_last() =~= fill_ops(fills.drop_last()));
        assert(fill_ops(fills).last() == RenderOp::Fill(fills.last()));
        lemma_painted_ids_fill_ops(fills.drop_last());
        assert(painted_ids(fill_ops(fills)) =~= Seq::<u128>::empty());
    }
}

/// Concatenating duplicate-free lists with no identity in common is
/// duplicate-free.
proof fn lemma_no_dup_concat(a: Seq<u128>, b: Seq<u128>)
    requires
        a.no_duplicates(),
        b.no_duplicates(),
        forall|x: u128| a.contains(x) ==> !b.contains(x),
    ensures
        (a + b).no_duplicates(),
{
    assert forall|i: int, j: int| 0 <= i < j < (a + b).len() implies (a + b)[i] != (a + b)[j] by {
        if i < a.len() && j >= a.len() {
            assert(a.contains(a[i]));
            assert(b.contains(b[j - a.len()]));
        }
    }
}

/// Soundness of the walk from one identity: the painted identities are
/// duplicate-free, were not yet visited, are visited afterwards, and all
/// belong to stored shapes.
pub proof fn lemma_visit_sound(s: Seq<ShapeView>, visited: Set<u128>, id: u128)
    ensures
        ({
            let r = spec_visit(s, visited, id);
            &&& visited.subset_of(r.0)
            &&& painted_ids(r.1).no_duplicates()
            &&& forall|x: u128|
                painted_ids(r.1).contains(x) ==> !visited.contains(x) && r.0.contains(x) && has_id(
                    s,
                    x,
                )
        }),
    decreases unvisited_count(s, visited), 0int, 0int,
{
    let r = spec_visit(s, visited, id);
    if visited.contains(id) || find_shape(s, id) is None {
        assert(painted_ids(r.1) =~= Seq::<u128>::empty());
        assert(painted_ids(r.1).no_duplicates());
    } else {
        lemma_find_shape(s, id);
        lemma_unvisited_insert(s, visited, id);
        let sh = find_shape(s, id)->Some_0;
        let v1 = visited.insert(id);
        lemma_visit_list_sound(s, v1, sh.children);
        let rl = spec_visit_list(s, v1, sh.children);
        let head = seq![begin_op(sh)] + fill_ops(sh.fills);
        lemma_painted_ids_single(begin_op(sh));
        lemma_painted_ids_fill_ops(sh.fills);
        lemma_painted_ids_concat(seq![begin_op(sh)], fill_ops(sh.fills));
        lemma_painted_ids_concat(head, rl.1);
        lemma_painted_ids_concat(head + rl.1, seq![RenderOp::End]);
        lemma_painted_ids_single(RenderOp::End);
        assert(r.1 == head + rl.1 + seq![RenderOp::End]);
        assert(painted_ids(head) =~= seq![sh.id]);
        assert(painted_ids(r.1) =~= seq![sh.id] + painted_ids(rl.1));
        assert(seq![sh.id].no_duplicates());
        assert forall|x: u128| seq![sh.id].contains(x) implies !painted_ids(rl.1).contains(x) by {
            assert(v1.contains(sh.id));
        }
        lemma_no_dup_concat(seq![sh.id], painted_ids(rl.1));
        assert forall|x: u128| painted_ids(r.1).contains(x) implies !visited.contains(x)
            && r.0.contains(x) && has_id(s, x) by {
            assert(painted_ids(r.1) == seq![sh.id] + painted_ids(rl.1));
            let k = choose|k: int| 0 <= k < painted_ids(r.1).len() && painted_ids(r.1)[k] == x;
            if k < 1 {
                assert(x == sh.id);
                assert(x == id);
                assert(!visited.contains(x));
                assert(v1.contains(x));
                assert(v1.subset_of(rl.0));
            } else {
                assert(painted_ids(rl.1)[k - 1] == x);
                assert(painted_ids(rl.1).contains(x));
                assert(!v1.contains(x));
                assert(!visited.contains(x));
            }
        }
    }
}

/// Soundness of the walk over a child list; same statement as for a
/// single identity.
pub proof fn lemma_visit_list_sound(s: Seq<ShapeView>, visited: Set<u128>, ids: Seq<u128>)
    ensures
        ({
            let r = spec_visit_list(s, visited, ids);
            &&& visited.subset_of(r.0)
            &&& painted_ids(r.1).no_duplicates()
            &&& forall|x: u128|
                painted_ids(r.1).contains(x) ==> !visited.contains(x) && r.0.contains(x) && has_id(
                    s,
                    x,
                )
        }),
    decreases unvisited_count(s, visited), 1int, ids.len(),
{
    let r = spec_visit_list(s, visited, ids);
    if ids.len() == 0 {
        assert(painted_ids(r.1) =~= Seq::<u128>::empty());
        assert(painted_ids(r.1).no_duplicates());
    } else {
        lemma_visit_sound(s, visited, ids[0]);
        let r1 = spec_visit(s, visited, ids[0]);
        let va = visited.union(r1.0);
        assert(va =~= r1.0);
        lemma_unvisited_subset(s, visited, va);
        lemma_visit_list_sound(s, va, ids.drop_first());
        let r2 = spec_visit_list(s, va, ids.drop_first());
        lemma_painted_ids_concat(r1.1, r2.1);
        assert forall|x: u128| painted_ids(r1.1).contains(x) implies !painted_ids(
            r2.1,
        ).contains(x) by {
            assert(r1.0.contains(x));
            assert(va.contains(x));
        }
        lemma_no_dup_concat(painted_ids(r1.1), painted_ids(r2.1));
        assert forall|x: u128| painted_ids(r.1).contains(x) implies !visited.contains(x)
            && r.0.contains(x) && has_id(s, x) by {
            assert(painted_ids(r.1) == painted_ids(r1.1) + painted_ids(r2.1));
            if painted_ids(r1.1).contains(x) {
                assert(r1.0.contains(x));
                assert(va.contains(x));
                assert(va.subset_of(r2.0));
            } else {
                assert(painted_ids(r2.1).contains(x));
            }
        }
    }
}

/// Soundness of the walk over the roots from position `i` on.
pub proof fn lemma_visit_roots_sound(s: Seq<ShapeView>, visited: Set<u128>, i: int)
    ensures
        ({
            let r = spec_visit_roots(s, visited, i);
            &&& visited.subset_of(r.0)
            &&& painted_ids(r.1).no_duplicates()
            &&& forall|x: u128|
                painted_ids(r.1).contains(x) ==> !visited.contains(x) && r.0.contains(x) && has_id(
                    s,
                    x,
                )
        }),
    decreases s.len() - i,
{
    let r = spec_visit_roots(s, visited, i);
    if !(0 <= i < s.len()) {
        assert(painted_ids(r.1) =~= Seq::<u128>::empty());
        assert(painted_ids(r.1).no_duplicates());
    } else {
        let r1 = if referenced(s, s[i].id) {
            (visited, Seq::<RenderOp>::empty())
        } else {
            spec_visit(s, visited, s[i].id)
        };
        if referenced(s, s[i].id) {
            assert(painted_ids(r1.1) =~= Seq::<u128>::empty());
        } else {
            lemma_visit_sound(s, visited, s[i].id);
        }
        let va = visited.union(r1.0);
        assert(va =~= r1.0);
        lemma_visit_roots_sound(s, va, i + 1);
        let r2 = spec_visit_roots(s, va, i + 1);
        lemma_painted_ids_concat(r1.1, r2.1);
        assert forall|x: u128| painted_ids(r1.1).contains(x) implies !painted_ids(
            r2.1,
        ).contains(x) by {
            assert(r1.0.contains(x));
            assert(va.contains(x));
        }
        lemma_no_dup_concat(painted_ids(r1.1), painted_ids(r2.1));
        assert forall|x: u128| painted_ids(r.1).contains(x) implies !visited.contains(x)
            && r.0.contains(x) && has_id(s, x) by {
            assert(painted_ids(r.1) == painted_ids(r1.1) + painted_ids(r2.1));
            if painted_ids(r1.1).contains(x) {
                assert(r1.0.contains(x));
                assert(va.contains(x));
                assert(va.subset_of(r2.0));
            } else {
                assert(painted_ids(r2.1).contains(x));
            }
        }
    }
}

/// A frame paints each reachable shape at most once: even when a child
/// list (transitively) contains its own shape, the per-frame visited
/// guard breaks the cycle, and the walk itself is verified to terminate.
pub proof fn lemma_render_paints_each_shape_at_most_once(s: Seq<ShapeView>)
    ensures
        painted_ids(spec_render(s)).no_duplicates(),
{
    lemma_visit_roots_sound(s, Set::<u128>::empty(), 0);
}

/// A frame paints only stored shapes: a child identity with no
/// corresponding shape contributes nothing and the frame goes on.
pub proof fn lemma_render_paints_only_stored_shapes(s: Seq<ShapeView>)
    ensures
        forall|x: u128| painted_ids(spec_render(s)).contains(x) ==> has_id(s, x),
{
    lemma_visit_roots_sound(s, Set::<u128>::empty(), 0);
}

/// Walking a child identity with no stored shape changes nothing: the
/// dangling reference is skipped, not an error.
pub proof fn lemma_missing_child_is_skipped(s: Seq<ShapeView>, visited: Set<u128>, id: u128)
    requires
        !has_id(s, id),
    ensures
        spec_visit(s, visited, id).0 == visited,
        spec_visit(s, visited, id).1 == Seq::<RenderOp>::empty(),
{
    lemma_find_shape(s, id);
}

/// Whether some stored shape lists `id` as a child.
fn is_referenced(arena: &ShapeArena, id: u128) -> (r: bool)
    ensures
        r == referenced(arena@, id),
{
    let ghost s = arena@;
    let n = arena.len();
    let mut i: usize = 0;
    while i < n
        invariant
            n == s.len(),
            i <= n,
            s == arena@,
            forall|p: int, q: int|
                0 <= p < i && 0 <= q < s[p].children.len() ==> s[p].children[q] != id,
        decreases n - i,
    {
        let sh = arena.shape_at(i);
        let m = sh.children.len();
        let mut j: usize = 0;
        while j < m
            invariant
                m == sh@.children.len(),
                j <= m,
                i < n,
                n == s.len(),
                s == arena@,
                sh@ == s[i as int],
                forall|q: int| 0 <= q < j ==> s[i as int].children[q] != id,
            decreases m - j,
        {
            if sh.children[j] == id {
                proof {
                    assert(s[i as int].children[j as int] == id);
                }
                return true;
            }
            j += 1;
        }
        i += 1;
    }
    proof {
        assert(!referenced(s, id));
    }
    false
}

/// Walks one identity: already-visited identities contribute nothing (the
/// cycle guard), identities with no stored shape are skipped, and a stored
/// shape contributes its group, fills, children and closing operation,
/// exactly as `spec_visit` says.
#[verifier::loop_isolation(false)]
fn visit_shape(arena: &ShapeArena, visited: &mut HashSet<u128>, out: &mut Vec<RenderOp>, id: u128)
    requires
        arena.wf(),
    ensures
        final(visited)@ == spec_visit(arena@, old(visited)@, id).0,
        final(out)@ == old(out)@ + spec_visit(arena@, old(visited)@, id).1,
    decreases unvisited_count(arena@, visited@),
{
    let ghost s = arena@;
    let ghost v0 = visited@;
    let ghost out0 = out@;
    if visited.contains(&id) {
        proof {
            assert(out@ =~= out0 + spec_visit(s, v0, id).1);
        }
        return ;
    }
    match arena.lookup(id) {
        None => {
            proof {
                lemma_find_shape(s, id);
                assert(out@ =~= out0 + spec_visit(s, v0, id).1);
            }
        },
        Some(i) => {
            let ghost shv = s[i as int];
            proof {
                arena.lemma_wf_unique();
                lemma_find_shape_at(s, id, i as int);
                lemma_unvisited_insert(s, v0, id);
            }
            visited.insert(id);
            let sh = arena.shape_at(i);
            out.push(
                RenderOp::Begin {
                    id,
                    selrect: sh.selrect,
                    rotation: sh.rotation,
                    transform: sh.transform,
                    blend_mode: sh.blend_mode,
                },
            );
            let ghost base = out@;
            proof {
                assert(base =~= out0 + seq![begin_op(shv)]);
            }
            let nf = sh.fills.len();
            let mut j: usize = 0;
            while j < nf
                invariant
                    j <= nf,
                    nf == shv.fills.len(),
                    sh@ == shv,
                    out@ == base + fill_ops(shv.fills.take(j as int)),
                decreases nf - j,
            {
                out.push(RenderOp::Fill(sh.fills[j]));
                proof {
                    assert(shv.fills.take(j + 1 as int) =~= shv.fills.take(j as int).push(
                        shv.fills[j as int],
                    ));
                    assert(fill_ops(shv.fills.take(j + 1 as int)) =~= fill_ops(
                        shv.fills.take(j as int),
                    ).push(RenderOp::Fill(shv.fills[j as int])));
                    assert(out@ =~= base + fill_ops(shv.fills.take(j + 1 as int)));
                }
                j += 1;
            }
            proof {
                assert(shv.fills.take(nf as int) =~= shv.fills);
            }
            let ghost base2 = out@;
            let ghost v1 = visited@;
            let nc = sh.children.len();
            let mut k: usize = 0;
            while k < nc
                invariant
                    arena.wf(),
                    s == arena@,
                    k <= nc,
                    nc == shv.children.len(),
                    sh@ == shv,
                    v1 == v0.insert(id),
                    visited@ == spec_visit_list(s, v1, shv.children.take(k as int)).0,
                    out@ == base2 + spec_visit_list(s, v1, shv.children.take(k as int)).1,
                    v1.subset_of(visited@),
                    unvisited_count(s, visited@) < unvisited_count(s, v0),
                decreases nc - k,
            {
                let ghost vpre = visited@;
                let ghost opre = out@;
                let child = sh.children[k];
                visit_shape(arena, visited, out, child);
                proof {
                    let rp = spec_visit_list(s, v1, shv.children.take(k as int));
                    let rc = spec_visit(s, vpre, child);
                    lemma_visit_list_snoc(s, v1, shv.children.take(k as int), child);
                    assert(shv.children.take(k + 1 as int) =~= shv.children.take(k as int).push(
                        child,
                    ));
                    assert(out@ =~= base2 + (rp.1 + rc.1));
                    lemma_visit_grows(s, vpre, child);
                    lemma_unvisited_subset(s, vpre, visited@);
                }
                k += 1;
            }
            proof {
                assert(shv.children.take(nc as int) =~= shv.children);
            }
            out.push(RenderOp::End);
            proof {
                let r = spec_visit_list(s, v0.insert(id), shv.children);
                assert(spec_visit(s, v0, id).1 == seq![begin_op(shv)] + fill_ops(shv.fills) + r.1
                    + seq![RenderOp::End]);
                assert(out@ =~= out0 + (seq![begin_op(shv)] + fill_ops(shv.fills) + r.1
                    + seq![RenderOp::End]));
            }
        },
    }
}

/// Plans one frame: walks every root (a shape that no shape lists as a
/// child) in insertion order with one shared visited set, and returns the
/// flat operation list. Total for every arena contents, cycles included.
pub fn render_plan(arena: &ShapeArena) -> (ops: Vec<RenderOp>)
    requires
        arena.wf(),
    ensures
        ops@ == spec_render(arena@),
{
    let ghost s = arena@;
    let mut out: Vec<RenderOp> = Vec::new();
    let mut visited: HashSet<u128> = HashSet::new();
    let n = arena.len();
    let mut i: usize = 0;
    proof {
        assert(out@ + spec_visit_roots(s, visited@, 0).1 =~= spec_visit_roots(
            s,
            Set::<u128>::empty(),
            0,
        ).1);
        assert(spec_render(s) == out@ + spec_visit_roots(s, visited@, i as int).1);
    }
    while i < n
        invariant
            arena.wf(),
            s == arena@,
            n == s.len(),
            i <= n,
            spec_render(s) == out@ + spec_visit_roots(s, visited@, i as int).1,
        decreases n - i,
    {
        let sh = arena.shape_at(i);
        let rid = sh.id;
        let ghost v0 = visited@;
        let ghost o0 = out@;
        proof {
            assert(s[i as int].id == rid);
        }
        if !is_referenced(arena, rid) {
            visit_shape(arena, &mut visited, &mut out, rid);
            proof {
                let r1 = spec_visit(s, v0, rid);
                lemma_visit_grows(s, v0, rid);
                assert(v0.union(r1.0) =~= r1.0);
                let rest = spec_visit_roots(s, visited@, i + 1 as int);
                assert(spec_visit_roots(s, v0, i as int).1 == r1.1 + rest.1);
                assert(o0 + (r1.1 + rest.1) =~= (o0 + r1.1) + rest.1);
            }
        } else {
            proof {
                assert(v0.union(v0) =~= v0);
                let rest = spec_visit_roots(s, v0, i + 1 as int);
                assert(spec_visit_roots(s, v0, i as int).1 == Seq::<RenderOp>::empty() + rest.1);
                assert(Seq::<RenderOp>::empty() + rest.1 =~= rest.1);
            }
        }
        i += 1;
    }
    proof {
        assert(out@ + Seq::<RenderOp>::empty() =~= out@);
    }
    out
}

} // verus!
