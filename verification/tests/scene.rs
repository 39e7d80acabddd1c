use render_core::geom::{Matrix, Rect, ONE_F32_BITS};
use render_core::shapes::BlendMode;
use render_core::state::init;
use render_core::uuid::uuid_from_u32_quartet;

#[test]
fn identity_is_deterministic() {
    assert_eq!(
        uuid_from_u32_quartet(1, 2, 3, 4),
        uuid_from_u32_quartet(1, 2, 3, 4)
    );
    assert_eq!(
        uuid_from_u32_quartet(0, 0, 0, 0),
        uuid_from_u32_quartet(0, 0, 0, 0)
    );
}

#[test]
fn identity_is_order_sensitive() {
    assert_ne!(
        uuid_from_u32_quartet(1, 2, 3, 4),
        uuid_from_u32_quartet(4, 3, 2, 1)
    );
    assert_ne!(
        uuid_from_u32_quartet(1, 0, 0, 0),
        uuid_from_u32_quartet(0, 0, 0, 1)
    );
}

#[test]
fn identity_packs_words_high_to_low() {
    let id = uuid_from_u32_quartet(1, 2, 3, 4);
    let expected: u128 = (1u128 << 96) | (2u128 << 64) | (3u128 << 32) | 4u128;
    assert_eq!(id, expected);
}

#[test]
fn mutators_without_select_change_nothing() {
    let mut st = init(800, 600, 0);
    st.set_shape_selrect(1, 2, 3, 4);
    st.set_shape_rotation(5);
    st.set_shape_transform(1, 2, 3, 4, 5, 6);
    st.add_shape_child(77);
    st.clear_shape_children();
    st.add_shape_solid_fill(10, 20, 30, (1.0f32).to_bits());
    st.clear_shape_fills();
    st.set_shape_blend_mode(16);
    assert_eq!(st.shape_count(), 0);
    assert_eq!(st.current_id(), None);
}

#[test]
fn select_new_id_creates_default_shape() {
    let mut st = init(800, 600, 0);
    let id = uuid_from_u32_quartet(9, 9, 9, 9);
    st.use_shape(id);
    assert_eq!(st.shape_count(), 1);
    assert_eq!(st.current_id(), Some(id));
    let sh = st.shape_by_id(id).expect("the selected shape exists");
    assert_eq!(sh.id, id);
    assert_eq!(
        sh.selrect,
        Rect { left: 0, top: 0, right: 0, bottom: 0 }
    );
    assert_eq!(sh.rotation, 0);
    assert_eq!(
        sh.transform,
        Matrix { a: ONE_F32_BITS, b: 0, c: 0, d: ONE_F32_BITS, e: 0, f: 0 }
    );
    assert!(sh.children.is_empty());
    assert!(sh.fills.is_empty());
    assert_eq!(sh.blend_mode, BlendMode::SrcOver);
}

#[test]
fn select_existing_id_keeps_the_shape() {
    let mut st = init(800, 600, 0);
    st.use_shape(5);
    st.set_shape_rotation(123);
    st.use_shape(5);
    assert_eq!(st.shape_count(), 1);
    let sh = st.shape_by_id(5).expect("the shape is still stored");
    assert_eq!(sh.rotation, 123);
}

#[test]
fn child_list_keeps_duplicates_in_order() {
    let mut st = init(800, 600, 0);
    st.use_shape(1);
    let x = uuid_from_u32_quartet(0, 0, 0, 42);
    st.add_shape_child(x);
    st.add_shape_child(x);
    let sh = st.shape_by_id(1).expect("the shape exists");
    assert_eq!(sh.children, vec![x, x]);
    st.clear_shape_children();
    let sh = st.shape_by_id(1).expect("the shape exists");
    assert!(sh.children.is_empty());
}

#[test]
fn setters_land_on_the_selected_shape() {
    let mut st = init(800, 600, 0);
    st.use_shape(1);
    st.use_shape(2);
    st.set_shape_rotation(7);
    assert_eq!(st.shape_by_id(1).unwrap().rotation, 0);
    assert_eq!(st.shape_by_id(2).unwrap().rotation, 7);
    st.set_shape_selrect(10, 20, 30, 40);
    assert_eq!(
        st.shape_by_id(2).unwrap().selrect,
        Rect { left: 10, top: 20, right: 30, bottom: 40 }
    );
    st.set_shape_transform(1, 2, 3, 4, 5, 6);
    assert_eq!(
        st.shape_by_id(2).unwrap().transform,
        Matrix { a: 1, b: 2, c: 3, d: 4, e: 5, f: 6 }
    );
}

#[test]
fn set_view_zoom_leaves_pan_untouched() {
    let mut st = init(800, 600, 0);
    st.set_view((2.0f32).to_bits(), (5.0f32).to_bits(), (6.0f32).to_bits());
    st.set_view_zoom((3.0f32).to_bits());
    let v = st.view_box();
    assert_eq!(v.zoom, (3.0f32).to_bits());
    assert_eq!(v.x, (5.0f32).to_bits());
    assert_eq!(v.y, (6.0f32).to_bits());
}

#[test]
fn set_view_xy_leaves_zoom_untouched() {
    let mut st = init(800, 600, 0);
    st.set_view((2.0f32).to_bits(), (5.0f32).to_bits(), (6.0f32).to_bits());
    st.set_view_xy((7.0f32).to_bits(), (8.0f32).to_bits());
    let v = st.view_box();
    assert_eq!(v.zoom, (2.0f32).to_bits());
    assert_eq!(v.x, (7.0f32).to_bits());
    assert_eq!(v.y, (8.0f32).to_bits());
}

#[test]
fn set_view_replaces_all_three_atomically() {
    let mut st = init(800, 600, 0);
    st.set_view_zoom((9.0f32).to_bits());
    st.set_view((2.0f32).to_bits(), (5.0f32).to_bits(), (6.0f32).to_bits());
    let v = st.view_box();
    assert_eq!(v.zoom, (2.0f32).to_bits());
    assert_eq!(v.x, (5.0f32).to_bits());
    assert_eq!(v.y, (6.0f32).to_bits());
}

#[test]
fn default_view_is_unit_zoom_zero_pan() {
    let st = init(800, 600, 0);
    let v = st.view_box();
    assert_eq!(v.zoom, ONE_F32_BITS);
    assert_eq!(v.x, 0);
    assert_eq!(v.y, 0);
}

#[test]
fn resize_keeps_viewport_and_scene() {
    let mut st = init(800, 600, 0);
    st.set_view((2.0f32).to_bits(), (5.0f32).to_bits(), (6.0f32).to_bits());
    st.use_shape(1);
    let before = st.surface_generation();
    st.resize_canvas(300, 200);
    assert_eq!(st.canvas_width(), 300);
    assert_eq!(st.canvas_height(), 200);
    assert_eq!(st.surface_generation(), before + 1);
    let v = st.view_box();
    assert_eq!(v.zoom, (2.0f32).to_bits());
    assert_eq!(v.x, (5.0f32).to_bits());
    assert_eq!(v.y, (6.0f32).to_bits());
    assert_eq!(st.shape_count(), 1);
}

#[test]
fn reset_canvas_touches_only_the_surface() {
    let mut st = init(800, 600, 0);
    st.use_shape(1);
    st.set_view_zoom((4.0f32).to_bits());
    let before = st.surface_generation();
    st.reset_canvas();
    assert_eq!(st.surface_generation(), before + 1);
    assert_eq!(st.shape_count(), 1);
    assert_eq!(st.view_box().zoom, (4.0f32).to_bits());
    assert_eq!(st.canvas_width(), 800);
    assert_eq!(st.canvas_height(), 600);
}

#[test]
fn navigate_recomputes_roots_and_is_idempotent() {
    let mut st = init(800, 600, 0);
    st.use_shape(1);
    st.add_shape_child(3);
    st.use_shape(2);
    st.use_shape(3);
    st.navigate();
    assert_eq!(st.cached_roots(), &vec![1u128, 2u128]);
    st.navigate();
    assert_eq!(st.cached_roots(), &vec![1u128, 2u128]);
}
