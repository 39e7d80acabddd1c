use render_core::color::{alpha_byte, Color};
use render_core::render::RenderOp;
use render_core::shapes::{BlendMode, Fill};
use render_core::state::init;

#[test]
fn alpha_one_is_full_opacity() {
    assert_eq!(alpha_byte((1.0f32).to_bits()), 255);
}

#[test]
fn alpha_zero_is_transparent() {
    assert_eq!(alpha_byte((0.0f32).to_bits()), 0);
}

#[test]
fn alpha_is_floored_not_rounded() {
    assert_eq!(alpha_byte((0.999f32).to_bits()), 254);
    assert_eq!(alpha_byte((0.5f32).to_bits()), 127);
    assert_eq!(alpha_byte((0.25f32).to_bits()), 63);
}

#[test]
fn alpha_is_clamped_to_one_byte() {
    assert_eq!(alpha_byte((2.0f32).to_bits()), 255);
    assert_eq!(alpha_byte((1000.0f32).to_bits()), 255);
    assert_eq!(alpha_byte((-0.5f32).to_bits()), 0);
    assert_eq!(alpha_byte((-1.0f32).to_bits()), 0);
    assert_eq!(alpha_byte(f32::INFINITY.to_bits()), 255);
    assert_eq!(alpha_byte(f32::NEG_INFINITY.to_bits()), 0);
    assert_eq!(alpha_byte(f32::NAN.to_bits()), 0);
}

#[test]
fn alpha_of_tiny_values_is_zero() {
    assert_eq!(alpha_byte((0.001f32).to_bits()), 0);
    assert_eq!(alpha_byte(f32::MIN_POSITIVE.to_bits()), 0);
    assert_eq!(alpha_byte((1.0e-40f32).to_bits()), 0);
}

#[test]
fn fills_keep_append_order() {
    let mut st = init(800, 600, 0);
    st.use_shape(1);
    st.add_shape_solid_fill(10, 20, 30, (1.0f32).to_bits());
    st.add_shape_solid_fill(40, 50, 60, (0.0f32).to_bits());
    let sh = st.shape_by_id(1).expect("the shape exists");
    assert_eq!(
        sh.fills,
        vec![
            Fill::Solid(Color { r: 10, g: 20, b: 30, a: 255 }),
            Fill::Solid(Color { r: 40, g: 50, b: 60, a: 0 }),
        ]
    );
    st.clear_shape_fills();
    let sh = st.shape_by_id(1).expect("the shape exists");
    assert!(sh.fills.is_empty());
}

#[test]
fn blend_mode_codes_form_a_closed_set() {
    let mut st = init(800, 600, 0);
    st.use_shape(1);
    st.set_shape_blend_mode(16);
    assert_eq!(st.shape_by_id(1).unwrap().blend_mode, BlendMode::Darken);
    st.set_shape_blend_mode(24);
    assert_eq!(st.shape_by_id(1).unwrap().blend_mode, BlendMode::Multiply);
    st.set_shape_blend_mode(14);
    assert_eq!(st.shape_by_id(1).unwrap().blend_mode, BlendMode::Screen);
    st.set_shape_blend_mode(28);
    assert_eq!(st.shape_by_id(1).unwrap().blend_mode, BlendMode::Luminosity);
}

#[test]
fn unrecognized_blend_code_maps_to_default() {
    let mut st = init(800, 600, 0);
    st.use_shape(1);
    st.set_shape_blend_mode(16);
    st.set_shape_blend_mode(999);
    assert_eq!(st.shape_by_id(1).unwrap().blend_mode, BlendMode::SrcOver);
    st.set_shape_blend_mode(-1);
    assert_eq!(st.shape_by_id(1).unwrap().blend_mode, BlendMode::SrcOver);
}

fn begin_ids(ops: &[RenderOp]) -> Vec<u128> {
    let mut r = Vec::new();
    for op in ops {
        if let RenderOp::Begin { id, .. } = op {
            r.push(*id);
        }
    }
    r
}

#[test]
fn frame_walks_roots_in_paint_order() {
    let mut st = init(800, 600, 0);
    st.use_shape(10);
    st.add_shape_child(21);
    st.add_shape_child(22);
    st.add_shape_solid_fill(1, 2, 3, (1.0f32).to_bits());
    st.use_shape(21);
    st.use_shape(22);
    let frame = st.render();
    assert_eq!(frame.width, 800);
    assert_eq!(frame.height, 600);
    assert_eq!(begin_ids(&frame.ops), vec![10, 21, 22]);
    // the root's own fill is painted right after its group opens
    assert!(matches!(frame.ops[0], RenderOp::Begin { id: 10, .. }));
    assert_eq!(
        frame.ops[1],
        RenderOp::Fill(Fill::Solid(Color { r: 1, g: 2, b: 3, a: 255 }))
    );
    assert!(matches!(frame.ops[2], RenderOp::Begin { id: 21, .. }));
    assert_eq!(frame.ops[3], RenderOp::End);
    assert!(matches!(frame.ops[4], RenderOp::Begin { id: 22, .. }));
    assert_eq!(frame.ops[5], RenderOp::End);
    assert_eq!(frame.ops[6], RenderOp::End);
    assert_eq!(frame.ops.len(), 7);
}

#[test]
fn cyclic_children_terminate_and_paint_once() {
    let mut st = init(800, 600, 0);
    st.use_shape(1);
    st.add_shape_child(2);
    st.use_shape(2);
    st.add_shape_child(2); // the shape lists itself as its own child
    let frame = st.render();
    assert_eq!(begin_ids(&frame.ops), vec![1, 2]);
    assert_eq!(frame.ops.len(), 4);
}

#[test]
fn mutual_cycle_under_a_root_paints_each_once() {
    let mut st = init(800, 600, 0);
    st.use_shape(1);
    st.add_shape_child(2);
    st.use_shape(2);
    st.add_shape_child(3);
    st.use_shape(3);
    st.add_shape_child(2); // closes the cycle between 2 and 3
    let frame = st.render();
    assert_eq!(begin_ids(&frame.ops), vec![1, 2, 3]);
}

#[test]
fn dangling_child_is_skipped() {
    let mut st = init(800, 600, 0);
    st.use_shape(1);
    st.add_shape_child(99); // no shape was ever created at 99
    let frame = st.render();
    assert_eq!(begin_ids(&frame.ops), vec![1]);
    assert_eq!(frame.ops.len(), 2);
}

#[test]
fn shared_child_is_painted_once_per_frame() {
    let mut st = init(800, 600, 0);
    st.use_shape(1);
    st.add_shape_child(3);
    st.use_shape(2);
    st.add_shape_child(3);
    st.use_shape(3);
    let frame = st.render();
    assert_eq!(begin_ids(&frame.ops), vec![1, 3, 2]);
}

#[test]
fn resize_then_render_uses_new_dimensions() {
    let mut st = init(800, 600, 0);
    st.use_shape(1);
    st.resize_canvas(1024, 768);
    let frame = st.render();
    assert_eq!(frame.width, 1024);
    assert_eq!(frame.height, 768);
    assert_eq!(begin_ids(&frame.ops), vec![1]);
}

#[test]
fn empty_scene_renders_an_empty_frame() {
    let st = init(640, 480, 0);
    let frame = st.render();
    assert!(frame.ops.is_empty());
    assert_eq!(frame.width, 640);
    assert_eq!(frame.height, 480);
}

#[test]
fn begin_carries_the_shape_snapshot() {
    let mut st = init(800, 600, 0);
    st.use_shape(1);
    st.set_shape_selrect(
        (1.0f32).to_bits(),
        (2.0f32).to_bits(),
        (3.0f32).to_bits(),
        (4.0f32).to_bits(),
    );
    st.set_shape_rotation((45.0f32).to_bits());
    st.set_shape_blend_mode(24);
    let frame = st.render();
    match frame.ops[0] {
        RenderOp::Begin { id, selrect, rotation, blend_mode, .. } => {
            assert_eq!(id, 1);
            assert_eq!(selrect.left, (1.0f32).to_bits());
            assert_eq!(selrect.bottom, (4.0f32).to_bits());
            assert_eq!(rotation, (45.0f32).to_bits());
            assert_eq!(blend_mode, BlendMode::Multiply);
        }
        _ => panic!("the frame must open with the root's group"),
    }
}
