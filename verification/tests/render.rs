use cube_rig::render::camera::{
    limited_pitch, limited_speed, picture_height, Direction, HeldKeys,
};
use cube_rig::render::device::{find_queue_families, FamilySupport};
use cube_rig::render::frame::{
    scene_pipeline, Acquired, FrameStart, Presented, ScenePipeline,
};
use cube_rig::render::image::{depth_barrier, fill_barriers, transition, Access, ImageLayout, Stage};
use cube_rig::render::instance::{
    device_score, is_listed, select_physical_device, wants_debug, wants_validation, DeviceKind,
};
use cube_rig::render::overlay::{
    expand_pixels, font_uploads, frame_draws, gather, grown_buffer, overlay_upload, Pixels,
    Primitive, Scissor, TextureDelta, TextureId,
};
use cube_rig::render::pipeline::{
    forward_pipelines, overlay_attributes, overlay_pipeline, pipeline_settings, shader_words, vertex_attributes,
    AttributeFormat, DepthMode, DepthTest, Topology, EGUI_VERTEX_SIZE, VERTEX_SIZE,
};
use cube_rig::render::swapchain::{
    choose_format, choose_present_mode, plan_swapchain, Extent, SurfaceFormat, SurfaceLimits,
    B8G8R8A8_SRGB, FIFO, MAILBOX, SRGB_NONLINEAR,
};
use cube_rig::render::sync::{FrameSync, MAX_FRAMES_IN_FLIGHT};
use cube_rig::render::texture::{placeholder_pixel, screenshot_pixels, stage_texture_array};
use cube_rig::render::upload::{index_bytes, mesh_upload, vertex_bytes, Vertex};
use cube_rig::scalar::Scalar;

fn sc(x: f32) -> Scalar {
    Scalar::from_bits(x.to_bits())
}

fn native(words: &[u32]) -> Vec<u8> {
    words.iter().flat_map(|w| w.to_ne_bytes()).collect()
}

#[test]
fn frames_take_turns() {
    let mut sync = FrameSync::new([1, 2], [3, 4], [5, 6]);
    assert_eq!(sync.current(), (1, 3, 5));
    sync.advance();
    assert_eq!(sync.current(), (2, 4, 6));
    for _ in 0..MAX_FRAMES_IN_FLIGHT {
        sync.advance();
    }
    assert_eq!(sync.current_frame, 1);
}

#[test]
fn frames_start_on_fitting_images_only() {
    let sync = FrameSync::new([0; 2], [0; 2], [0; 2]);
    let fits = Acquired::Image { index: 7, suboptimal: false };
    assert_eq!(sync.begin_frame(fits), FrameStart::Draw { frame: 0, image: 7 });
    let worn = Acquired::Image { index: 7, suboptimal: true };
    assert_eq!(sync.begin_frame(worn), FrameStart::Recreate);
    assert_eq!(sync.begin_frame(Acquired::OutOfDate), FrameStart::Recreate);
    assert_eq!(sync.begin_frame(Acquired::Failed), FrameStart::Fail);
}

#[test]
fn frames_end_with_the_turn_handed_on() {
    let mut sync = FrameSync::new([0; 2], [0; 2], [0; 2]);
    assert_eq!(sync.end_frame(Presented::Shown { suboptimal: false }), Some(true));
    assert_eq!(sync.current_frame, 1);
    assert_eq!(sync.end_frame(Presented::Shown { suboptimal: true }), Some(false));
    assert_eq!(sync.end_frame(Presented::OutOfDate), Some(false));
    assert_eq!(sync.current_frame, 1);
    assert_eq!(sync.end_frame(Presented::Failed), None);
    assert_eq!(sync.current_frame, 1);
    assert_eq!(scene_pipeline(true), ScenePipeline::Wire);
    assert_eq!(scene_pipeline(false), ScenePipeline::Fill);
}

#[test]
fn the_first_family_that_draws_and_presents_is_taken() {
    let f = |graphics: bool, present: bool| FamilySupport { graphics, present };
    let list = vec![f(true, false), f(false, true), f(true, true), f(true, true)];
    assert_eq!(find_queue_families(&list).unwrap().graphics, 2);
    assert!(find_queue_families(&vec![f(true, false)]).is_none());
}

#[test]
fn the_best_device_is_taken_and_the_first_of_equals() {
    let kinds = vec![DeviceKind::Other, DeviceKind::Integrated, DeviceKind::Discrete, DeviceKind::Discrete];
    assert_eq!(select_physical_device(&kinds), Some(2));
    assert_eq!(select_physical_device(&vec![DeviceKind::Other, DeviceKind::Other]), Some(0));
    assert_eq!(select_physical_device(&Vec::new()), None);
    assert_eq!(device_score(DeviceKind::Discrete), 1000);
    assert_eq!(device_score(DeviceKind::Integrated), 100);
    assert_eq!(device_score(DeviceKind::Virtual), 10);
    assert_eq!(device_score(DeviceKind::Other), 1);
}

#[test]
fn instance_parts_are_optional() {
    let extensions = vec!["VK_KHR_surface".to_string(), "VK_EXT_debug_utils".to_string()];
    assert!(wants_debug(&extensions));
    assert!(!wants_debug(&vec!["VK_KHR_surface".to_string()]));
    let layers = vec!["VK_LAYER_KHRONOS_validation".to_string()];
    assert!(wants_validation(&layers, Some("1")));
    assert!(!wants_validation(&layers, Some("yes")));
    assert!(!wants_validation(&layers, None));
    assert!(!wants_validation(&Vec::new(), Some("1")));
    assert!(is_listed(&layers, "VK_LAYER_KHRONOS_validation"));
}

fn limits() -> SurfaceLimits {
    SurfaceLimits {
        min_extent: Extent { width: 100, height: 100 },
        max_extent: Extent { width: 800, height: 600 },
        min_image_count: 2,
        max_image_count: 0,
    }
}

#[test]
fn swapchains_fit_the_surface() {
    let other = SurfaceFormat { format: 44, color_space: SRGB_NONLINEAR };
    let best = SurfaceFormat { format: B8G8R8A8_SRGB, color_space: SRGB_NONLINEAR };
    assert_eq!(choose_format(&vec![other, best]), best);
    assert_eq!(choose_format(&vec![other]), other);
    assert_eq!(choose_present_mode(&vec![0, FIFO, MAILBOX]), MAILBOX);
    assert_eq!(choose_present_mode(&vec![0]), FIFO);
    let plan = plan_swapchain(&limits(), &vec![other, best], &vec![FIFO], 1000, 50);
    assert_eq!(plan.extent, Extent { width: 800, height: 100 });
    assert_eq!(plan.image_count, 3);
    assert_eq!(plan.format, best);
    let tight = SurfaceLimits { max_image_count: 2, ..limits() };
    let plan = plan_swapchain(&tight, &vec![other], &vec![MAILBOX], 640, 480);
    assert_eq!(plan.image_count, 2);
    assert_eq!(plan.extent, Extent { width: 640, height: 480 });
    assert_eq!(plan.present_mode, MAILBOX);
}

#[test]
fn layouts_fill_their_vertices() {
    let size = |f: AttributeFormat| match f {
        AttributeFormat::Pair => 8,
        AttributeFormat::Triple => 12,
        AttributeFormat::Quad => 16,
        AttributeFormat::Bytes => 4,
    };
    let mut at = 0;
    for a in vertex_attributes() {
        assert_eq!(a.offset, at);
        at += size(a.format);
    }
    assert_eq!(at, VERTEX_SIZE);
    let mut at = 0;
    for a in overlay_attributes() {
        assert_eq!(a.offset, at);
        at += size(a.format);
    }
    assert_eq!(at as usize, EGUI_VERTEX_SIZE);
}

#[test]
fn pipelines_differ_in_depth_and_blending() {
    let (fill, wire, line) = forward_pipelines();
    assert!(fill.cull_back && fill.depth_write && !fill.blend && !fill.edges_only);
    assert!(wire.edges_only && !wire.cull_back && wire.depth_write);
    assert_eq!(line.topology, Topology::Lines);
    assert_eq!(line.depth_test, Some(DepthTest::LessOrEqual));
    assert!(line.blend && !line.depth_write);
    let s = pipeline_settings(Topology::Triangles, false, true, DepthMode::WriteAndTest);
    assert_eq!(s, fill);
}

#[test]
fn shader_words_are_little_endian() {
    assert_eq!(shader_words(&vec![3, 2, 35, 7, 0, 0, 1, 0]), vec![0x0723_0203, 0x0001_0000]);
    assert!(shader_words(&Vec::new()).is_empty());
}

#[test]
fn layout_changes_wait_for_what_they_must() {
    let start = transition(ImageLayout::Undefined, ImageLayout::ColorAttachment);
    assert_eq!((start.source_stage, start.target_stage), (Stage::Top, Stage::ColorOutput));
    let end = transition(ImageLayout::ColorAttachment, ImageLayout::PresentSource);
    assert_eq!((end.source_access, end.target_access), (Access::ColorWrite, Access::Nothing));
    let any = transition(ImageLayout::PresentSource, ImageLayout::TransferSource);
    assert_eq!(any.source_stage, Stage::All);
    let (before, after) = fill_barriers();
    assert_eq!(before.target_access, Access::TransferWrite);
    assert_eq!(after.target_stage, Stage::FragmentShader);
    assert_eq!(depth_barrier().target_access, Access::DepthReadWrite);
}

#[test]
fn meshes_go_to_memory_in_machine_order() {
    let v = Vertex::new(
        [sc(1.0), sc(2.0), sc(3.0)],
        [sc(0.0), sc(1.0), sc(0.0)],
        [sc(0.5), sc(0.25)],
        [sc(1.0), sc(0.0), sc(0.0), sc(1.0)],
    );
    let words: Vec<u32> = [1.0f32, 2.0, 3.0, 0.0, 1.0, 0.0, 0.5, 0.25, 1.0, 0.0, 0.0, 1.0]
        .iter()
        .map(|x| x.to_bits())
        .collect();
    assert_eq!(vertex_bytes(&vec![v]), native(&words));
    assert_eq!(index_bytes(&vec![1, 0x0102_0304]), native(&[1, 0x0102_0304]));
    let up = mesh_upload(&vec![v, v], &vec![0, 1, 0]);
    assert_eq!(up.vertex_bytes.len(), 96);
    assert_eq!(up.index_bytes, native(&[0, 1, 0]));
    assert_eq!(up.index_count, 3);
}

#[test]
fn texture_layers_are_cut_and_filled() {
    let layers = vec![vec![1, 2, 3], vec![9; 20]];
    let s = stage_texture_array(2, &layers).unwrap();
    assert_eq!(s.layer_count, 2);
    assert_eq!(s.bytes_per_layer, 16);
    assert_eq!(s.offsets, vec![0, 16]);
    assert_eq!(&s.bytes[0..4], &[1, 2, 3, 128]);
    assert_eq!(s.bytes[15], 128);
    assert_eq!(&s.bytes[16..32], &[9; 16]);
    assert_eq!(s.bytes.len(), 32);
    assert!(stage_texture_array(2, &Vec::new()).is_none());
    assert!(stage_texture_array(u32::MAX, &Vec::new()).is_none());
    assert_eq!(placeholder_pixel(), [128, 128, 128, 255]);
}

#[test]
fn screenshots_become_opaque_rgba() {
    let raw = vec![1, 2, 3, 4, 5, 6, 7, 8];
    assert_eq!(screenshot_pixels(2, 1, &raw), vec![3, 2, 1, 255, 7, 6, 5, 255]);
    let twice = screenshot_pixels(2, 1, &screenshot_pixels(2, 1, &raw));
    assert_eq!(twice, vec![1, 2, 3, 255, 5, 6, 7, 255]);
}

fn delta(id: TextureId, partial: bool) -> TextureDelta {
    TextureDelta { id, partial, width: 2, height: 1, pixels: Pixels::Coverage(vec![0, 200]) }
}

#[test]
fn only_whole_font_textures_are_taken() {
    let deltas = vec![
        delta(TextureId::Managed(0), true),
        delta(TextureId::Managed(1), false),
        delta(TextureId::User(0), false),
        delta(TextureId::Managed(0), false),
    ];
    let ups = font_uploads(&deltas);
    assert_eq!(ups.len(), 1);
    assert_eq!((ups[0].width, ups[0].height), (2, 1));
    assert_eq!(ups[0].rgba, vec![255, 255, 255, 0, 255, 255, 255, 200]);
    let color = Pixels::Color(vec![[1, 2, 3, 4], [5, 6, 7, 8]]);
    assert_eq!(expand_pixels(&color), vec![1, 2, 3, 4, 5, 6, 7, 8]);
}

fn shape(vertices: usize, indices: Vec<u32>, width: u32) -> Primitive {
    Primitive::Mesh {
        vertices: vec![[vertices as u8; EGUI_VERTEX_SIZE]; vertices],
        indices,
        scissor: Scissor { x: 1, y: 2, width, height: 10 },
    }
}

#[test]
fn draws_point_at_their_own_geometry() {
    let prims = vec![
        shape(3, vec![0, 1, 2], 5),
        shape(4, vec![0, 1, 2, 0, 2, 3], 0),
        Primitive::Callback,
        shape(0, vec![0], 5),
        shape(2, vec![1, 0, 1], 7),
    ];
    let list = gather(&prims);
    assert_eq!(list.calls.len(), 2);
    assert_eq!(list.vertices.len(), 9);
    assert_eq!(list.indices.len(), 12);
    let last = list.calls[1];
    assert_eq!((last.first_index, last.index_count, last.vertex_offset), (9, 3, 7));
    assert_eq!(last.scissor.width, 7);
    assert_eq!(&list.indices[9..12], &[1, 0, 1]);
    assert_eq!(list.vertices[7], [2; EGUI_VERTEX_SIZE]);
    let up = overlay_upload(&list);
    assert_eq!(up.vertex_bytes.len(), 180);
    assert_eq!(&up.vertex_bytes[140..160], &[2; 20]);
    assert_eq!(up.index_bytes, native(&list.indices));
    assert!(frame_draws(false, &prims).is_none());
    assert!(frame_draws(true, &vec![shape(4, vec![0, 1, 2], 0)]).is_none());
    assert_eq!(frame_draws(true, &prims).unwrap().calls, list.calls);
}

#[test]
fn buffers_grow_to_powers_of_two() {
    assert_eq!(grown_buffer(None, 10), Some(65536));
    assert_eq!(grown_buffer(Some(65536), 65536), None);
    assert_eq!(grown_buffer(Some(65536), 65537), Some(131072));
    assert_eq!(grown_buffer(None, 100_000), Some(131072));
    assert_eq!(grown_buffer(Some(0), 0), None);
    assert_eq!(grown_buffer(None, 1 << 63), Some(1 << 63));
}

// ── camera ──────────────────────────────────────────────────────────────────

fn keys(held: &str) -> HeldKeys {
    HeldKeys {
        fwd: held.contains('w'),
        back: held.contains('s'),
        left: held.contains('a'),
        right: held.contains('d'),
        up: held.contains('e'),
        down: held.contains('q'),
    }
}

#[test]
fn held_keys_add_up() {
    assert_eq!(keys("wd").direction(), Direction { right: 1, up: 0, forward: 1 });
    assert_eq!(keys("sae").direction(), Direction { right: -1, up: 1, forward: -1 });
    assert_eq!(keys("wsadeq").direction(), Direction { right: 0, up: 0, forward: 0 });
}

#[test]
fn opposite_keys_lead_back() {
    let there = keys("wde").direction();
    let back = keys("saq").direction();
    assert_eq!(
        (there.right, there.up, there.forward),
        (-back.right, -back.up, -back.forward)
    );
}

#[test]
fn pitch_and_speed_stay_in_their_ranges() {
    assert_eq!(limited_pitch(sc(2.0)), sc(1.553));
    assert_eq!(limited_pitch(sc(-2.0)), sc(-1.553));
    assert_eq!(limited_pitch(sc(-0.3)), sc(-0.3));
    assert_eq!(limited_speed(sc(1.0)), sc(5.0));
    assert_eq!(limited_speed(sc(80.0)), sc(80.0));
    assert_eq!(limited_speed(sc(1e6)), sc(16384.0));
}

#[test]
fn pictures_have_a_line_at_least() {
    assert_eq!(picture_height(0), 1);
    assert_eq!(picture_height(720), 720);
}

#[test]
fn the_overlay_knows_no_depth() {
    let overlay = overlay_pipeline();
    assert_eq!(overlay.depth_test, None);
    assert!(!overlay.depth_write && !overlay.cull_back && !overlay.edges_only);
    assert!(overlay.blend && overlay.adds_opacity);
    assert_eq!(overlay.topology, Topology::Triangles);
    let (fill, wire, line) = forward_pipelines();
    assert!(!fill.adds_opacity && !wire.adds_opacity && !line.adds_opacity);
}
