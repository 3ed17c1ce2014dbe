//! Painting, colours and picking: the weight and screen rules driven with real
//! numbers.

use cube_rig::controller::{RigController, is_highlighted};
use cube_rig::mesh::{
    Influence, MAX_INFLUENCES, RigVertex, SkinnedMesh, VertexInfluences, floored_influences,
    normalize_one, painted_influences, stroke_target,
};
use cube_rig::scalar::Scalar;
use cube_rig::select::{self, ScreenFilter, ScreenPoint, ScreenVertex, VertexSelection};
use cube_rig::skeleton::{Bone, Matrix, Skeleton};
use cube_rig::state::RigState;
use cube_rig::viz::{self, HeatBand, Tint, WeightView};
use cube_rig::weights::{
    BoneShare, build_bone_mirror_map, carry_over, drop_small_weights, mirror_copies,
    mirror_target, mirrored_influences, nearest_within, paint_targets, smooth_steps,
    top_influences, written_vertices,
};
use glam::{Mat4, Vec2, Vec3, Vec4};
use std::collections::HashMap;

// ── arithmetic around the rules ─────────────────────────────────────────────

fn sc(x: f32) -> Scalar {
    Scalar::from_bits(x.to_bits())
}

fn num(x: Scalar) -> f32 {
    f32::from_bits(x.to_bits())
}

fn vec3(v: [Scalar; 3]) -> Vec3 {
    Vec3::from_array(v.map(num))
}

fn from_mat4(m: Mat4) -> Matrix {
    m.to_cols_array().map(sc)
}

/// Clamp negative weights to zero and scale the rest to sum to one. A set
/// without weight stays as it is.
fn normalize_set(set: &mut VertexInfluences) {
    *set = floored_influences(set);
    let sum = set.iter().fold(0.0, |sum, slot| sum + num(slot.weight));
    let shares = set.map(|slot| sc(num(slot.weight) / sum));
    normalize_one(set, sc(sum), &shares);
}

fn normalize_all(mesh: &mut SkinnedMesh) {
    for v in 0..mesh.influences.len() {
        let mut set = mesh.influences[v];
        normalize_set(&mut set);
        mesh.set_influences(v, set);
    }
}

/// Move the weight of `bone` at `vertex` by `delta` within zero to one, and
/// share the rest among the other bones in the old proportions.
fn add_weight(mesh: &mut SkinnedMesh, vertex: usize, bone: u16, delta: f32) {
    assert!(vertex < mesh.influences.len(), "vertex {vertex} out of range");
    let raised = num(mesh.current_weight(vertex, bone)) + delta;
    let Some(target) = stroke_target(sc(delta), sc(raised)) else { return };
    let mut others = mesh.other_influences(vertex, bone);
    let sum: f32 = others.iter().map(|o| num(o.weight)).sum();
    if sum > 0.0 {
        let k = (1.0 - num(target)).max(0.0) / sum;
        for o in others.iter_mut() {
            o.weight = sc(num(o.weight) * k);
        }
    }
    let mut set = painted_influences(others, bone, target);
    normalize_set(&mut set);
    mesh.set_influences(vertex, set);
}

/// Paint the selection. `falloff` scales the amount per vertex.
fn paint(
    mesh: &mut SkinnedMesh,
    sel: &VertexSelection,
    bone: u16,
    amount: f32,
    falloff: Option<&HashMap<u32, f32>>,
) {
    let scales: Option<HashMap<u32, Scalar>> =
        falloff.map(|f| f.iter().map(|(&v, &s)| (v, sc(s))).collect());
    for (v, scale) in paint_targets(sel, scales.as_ref()) {
        add_weight(mesh, v as usize, bone, amount * num(scale));
    }
}

/// Panics unless the neighbour graph stays within the mesh and holds every
/// selected vertex.
fn assert_graph(mesh: &SkinnedMesh, sel: &VertexSelection) {
    let size = match &mesh.adjacency {
        Some(graph) => {
            let inside = graph.iter().flatten().all(|&n| (n as usize) < graph.len());
            assert!(inside, "neighbour out of range");
            graph.len()
        }
        None => {
            let n = mesh.vertices.len();
            let used = mesh.indices.len() / 3 * 3;
            let inside = mesh.indices[..used].iter().all(|&i| (i as usize) < n);
            assert!(inside, "index out of range");
            n
        }
    };
    assert!(sel.iter().iter().all(|&v| (v as usize) < size), "selected vertex out of range");
    assert!(mesh.influences.len() >= size, "vertices without influences");
}

fn total(share: &BoneShare, factor: f32) -> f32 {
    share.weights.iter().map(|w| num(*w) * factor).sum()
}

/// Relax the selected vertices toward the mean of their neighbours.
fn smooth(mesh: &mut SkinnedMesh, sel: &VertexSelection, iterations: u32, strength: f32) {
    let strength = strength.clamp(0.0, 1.0);
    assert_graph(mesh, sel);
    for _ in 0..iterations {
        for step in smooth_steps(mesh, sel) {
            let inv = 1.0 / step.neighbour_count as f32;
            let mut sums: Vec<Influence> = step
                .own
                .iter()
                .map(|s| Influence { bone: s.bone, weight: sc(total(s, 1.0 - strength)) })
                .collect();
            for share in &step.neighbours {
                let part = total(share, 1.0) * inv * strength;
                match sums.iter_mut().find(|s| s.bone == share.bone) {
                    Some(s) => s.weight = sc(num(s.weight) + part),
                    None => sums.push(Influence { bone: share.bone, weight: sc(part) }),
                }
            }
            let mut set = top_influences(&sums);
            normalize_set(&mut set);
            mesh.set_influences(step.vertex as usize, set);
        }
    }
}

/// Copy weights to the other side of `axis`; returns how many vertices were
/// written.
fn mirror(
    mesh: &mut SkinnedMesh,
    skeleton: &Skeleton,
    axis: usize,
    tolerance: f32,
    negative_to_positive: bool,
) -> usize {
    assert!(axis < 3, "no axis {axis}");
    assert!(mesh.influences.len() >= mesh.vertices.len(), "vertices without influences");
    let table = build_bone_mirror_map(skeleton);
    let partners: Vec<Option<usize>> = (0..mesh.vertices.len())
        .map(|v| {
            let p = mesh.vertices[v].position;
            let target = mirror_target(p, axis, sc(tolerance), negative_to_positive)?.map(num);
            let distances: Vec<Scalar> = mesh
                .vertices
                .iter()
                .map(|other| {
                    let q = other.position.map(num);
                    let d = [q[0] - target[0], q[1] - target[1], q[2] - target[2]];
                    sc(d[0] * d[0] + d[1] * d[1] + d[2] * d[2])
                })
                .collect();
            nearest_within(&distances, sc(tolerance * tolerance), v)
        })
        .collect();
    let copies = mirror_copies(mesh, &partners, axis, sc(tolerance), negative_to_positive);
    carry_over(mesh, &copies, &table);
    let written = written_vertices(&copies);
    for &to in &written {
        let mut set = mesh.influences[to];
        normalize_set(&mut set);
        mesh.set_influences(to, set);
    }
    written.len()
}

/// Drop weights below `min_weight` and normalise what is left.
fn prune(mesh: &mut SkinnedMesh, min_weight: f32) {
    drop_small_weights(mesh, sc(min_weight));
    normalize_all(mesh);
}

#[test]
fn written_vertices_are_listed_once() {
    assert_eq!(written_vertices(&vec![(0, 2), (1, 2), (4, 3)]), vec![2, 3]);
    assert!(written_vertices(&Vec::new()).is_empty());
}

#[test]
fn vertices_with_one_partner_count_as_one_written() {
    let mut m = SkinnedMesh::new(
        vec![corner(-1.0, 0.0), corner(-1.0005, 0.0), corner(1.0, 0.0)],
        vec![],
    );
    m.set_rigid(0, 0);
    m.set_rigid(1, 2);
    assert_eq!(mirror(&mut m, &sided_skeleton(), 0, 1e-2, true), 1);
    assert_eq!(m.dominant_bone(2), Some(2));
}

#[test]
fn mirroring_again_keeps_everything() {
    let slot = |bone, w| Influence { bone, weight: sc(w) };
    let mut m = SkinnedMesh::new(
        vec![corner(-1.0, 0.0), corner(1.0, 0.0), corner(-2.0, 0.5), corner(2.0, 0.5)],
        vec![],
    );
    m.set_influences(0, [slot(0, 0.7), slot(2, 0.4), Influence::none(), Influence::none()]);
    m.set_influences(2, [slot(2, 0.3), slot(1, 0.3), slot(0, 0.1), Influence::none()]);
    let start = m.influences.clone();
    assert_eq!(mirror(&mut m, &sided_skeleton(), 0, 1e-3, true), 2);
    let once = m.influences.clone();
    assert_eq!((once[0], once[2]), (start[0], start[2]));
    assert_ne!(once[1], start[1]);
    assert_eq!(mirror(&mut m, &sided_skeleton(), 0, 1e-3, true), 2);
    assert_eq!(m.influences, once);
}

// ── colours ─────────────────────────────────────────────────────────────────

/// A stable colour per bone: hues a golden ratio apart.
fn bone_color(bone: u16) -> [f32; 3] {
    const GOLDEN: f32 = 0.618_034;
    let hue = (bone as f32 * GOLDEN).fract();
    let sat = 0.55 + 0.25 * ((bone / 12) as f32 * GOLDEN).fract();
    hsv_to_rgb(hue, sat.min(0.85), 0.95)
}

/// Blue, cyan, green, yellow, red as the weight goes from zero to one.
fn heat(weight: f32) -> [f32; 3] {
    let (clamped, band) = viz::heat_band(sc(weight));
    let t = num(clamped);
    match band {
        HeatBand::BlueToCyan => [0.0, t / 0.25, 1.0],
        HeatBand::CyanToGreen => [0.0, 1.0, 1.0 - (t - 0.25) / 0.25],
        HeatBand::GreenToYellow => [(t - 0.5) / 0.25, 1.0, 0.0],
        HeatBand::YellowToRed => [1.0, 1.0 - (t - 0.75) / 0.25, 0.0],
    }
}

fn hsv_to_rgb(h: f32, s: f32, v: f32) -> [f32; 3] {
    let h6 = (h.fract() * 6.0).clamp(0.0, 6.0);
    let f = h6 - h6.floor();
    let p = v * (1.0 - s);
    let q = v * (1.0 - s * f);
    let t = v * (1.0 - s * (1.0 - f));
    viz::hsv_to_rgb(h6.floor() as u32 % 6, sc(v), sc(p), sc(q), sc(t)).map(num)
}

fn tint_color(tint: &Tint) -> [Scalar; 4] {
    rgba(tint).map(sc)
}

fn rgba(tint: &Tint) -> [f32; 4] {
    match *tint {
        Tint::Bone(bone) => {
            let [r, g, b] = bone_color(bone);
            [r, g, b, 1.0]
        }
        Tint::Unweighted => [0.35, 0.35, 0.35, 1.0],
        Tint::Heat(weight) => {
            let [r, g, b] = heat(num(weight));
            [r, g, b, 1.0]
        }
        Tint::Uninfluenced => [0.15, 0.15, 0.18, 1.0],
        Tint::Plain => [1.0, 1.0, 1.0, 1.0],
    }
}

fn weight_colors(
    mesh: &SkinnedMesh,
    view: WeightView,
    active_bone: Option<u16>,
) -> Vec<[Scalar; 4]> {
    assert!(mesh.vertices.len() <= mesh.influences.len(), "vertices without influences");
    viz::weight_colors(mesh, view, active_bone).iter().map(tint_color).collect()
}

/// Pull the colours of selected vertices toward `highlight`.
fn blend_selection(
    colors: &mut Vec<[Scalar; 4]>,
    sel: &VertexSelection,
    highlight: [f32; 3],
    amount: f32,
) {
    let a = amount.clamp(0.0, 1.0);
    let blended = colors
        .iter()
        .map(|c| std::array::from_fn(|k| sc(num(c[k]) * (1.0 - a) + highlight[k] * a)))
        .collect();
    viz::blend_selection(colors, sel, &blended);
}

// ── screen ──────────────────────────────────────────────────────────────────

/// Pixel position of a world point, from the top left; nothing for points
/// behind the camera.
fn project(view_proj: &Mat4, world: Vec3, viewport: Vec2) -> Option<ScreenPoint> {
    let clip: Vec4 = *view_proj * world.extend(1.0);
    let ndc = clip.truncate() / clip.w;
    let x = (ndc.x * 0.5 + 0.5) * viewport.x;
    let y = (1.0 - (ndc.y * 0.5 + 0.5)) * viewport.y;
    select::project(sc(clip.w), point(Vec2::new(x, y)))
}

fn point(p: Vec2) -> ScreenPoint {
    ScreenPoint { x: sc(p.x), y: sc(p.y) }
}

/// What the camera sees of each vertex.
fn screen_vertices(
    mesh: &SkinnedMesh,
    view_proj: &Mat4,
    viewport: Vec2,
    camera_pos: Vec3,
) -> Vec<ScreenVertex> {
    mesh.vertices
        .iter()
        .map(|v| {
            let position = vec3(v.pos());
            ScreenVertex {
                point: project(view_proj, position, viewport),
                leaning: sc(vec3(v.nrm()).dot(camera_pos - position)),
            }
        })
        .collect()
}

fn position(p: ScreenPoint) -> Vec2 {
    Vec2::new(num(p.x), num(p.y))
}

fn pixel(v: &ScreenVertex) -> Option<Vec2> {
    v.point.map(position)
}

/// Squared distance of each vertex from a pixel; infinite where there is none.
fn squared_distances(screen: &[ScreenVertex], center: Vec2) -> Vec<Scalar> {
    screen
        .iter()
        .map(|v| sc(pixel(v).map_or(f32::INFINITY, |p| (p - center).length_squared())))
        .collect()
}

/// Distance of each vertex from a pixel; infinite where there is none.
fn distances(screen: &[ScreenVertex], center: Vec2) -> Vec<Scalar> {
    screen
        .iter()
        .map(|v| sc(pixel(v).map_or(f32::INFINITY, |p| (p - center).length())))
        .collect()
}

/// Where the horizontal line through `p` meets each edge of a polygon.
fn crossings(p: Vec2, polygon: &[Vec2]) -> Vec<Scalar> {
    (0..polygon.len())
        .map(|i| {
            let a = polygon[i];
            let b = polygon[(i + polygon.len() - 1) % polygon.len()];
            sc(a.x + (p.y - a.y) / (b.y - a.y) * (b.x - a.x))
        })
        .collect()
}

/// Where each vertex's horizontal line meets each edge of a polygon.
fn edge_crossings(
    screen: &[ScreenVertex],
    polygon: &[Vec2],
) -> Vec<Vec<Scalar>> {
    screen.iter().map(|v| pixel(v).map_or_else(Vec::new, |p| crossings(p, polygon))).collect()
}

fn point_in_polygon(p: Vec2, polygon: &[Vec2]) -> bool {
    assert!(!polygon.is_empty(), "a polygon has corners");
    let corners: Vec<ScreenPoint> = polygon.iter().map(|&q| point(q)).collect();
    select::point_in_polygon(point(p), &corners, &crossings(p, polygon))
}

/// Vertices within `radius` pixels of `center`.
fn brush(
    mesh: &SkinnedMesh,
    view_proj: &Mat4,
    viewport: Vec2,
    center: Vec2,
    radius: f32,
    camera_pos: Vec3,
    filter: ScreenFilter,
) -> Vec<u32> {
    let screen = screen_vertices(mesh, view_proj, viewport, camera_pos);
    let squared = squared_distances(&screen, center);
    select::brush(&screen, &squared, sc(radius * radius), filter)
}

// ── painting ────────────────────────────────────────────────────────────────

fn corner(x: f32, y: f32) -> RigVertex {
    RigVertex {
        position: [x, y, 0.0].map(sc),
        normal: [0.0, 0.0, 1.0].map(sc),
        uv: [0.0, 0.0].map(sc),
    }
}

fn quad() -> SkinnedMesh {
    let corners = vec![corner(0.0, 0.0), corner(1.0, 0.0), corner(0.0, 1.0), corner(1.0, 1.0)];
    SkinnedMesh::new(corners, vec![0, 1, 2, 1, 3, 2])
}

fn two_vert_mesh(x0: f32, x1: f32) -> SkinnedMesh {
    SkinnedMesh::new(vec![corner(x0, 0.0), corner(x1, 0.0)], vec![0, 1, 0])
}

fn weight_sum(mesh: &SkinnedMesh, v: usize) -> f32 {
    mesh.influences[v].iter().map(|i| num(i.weight)).sum()
}

#[test]
fn add_weight_normalizes() {
    let mut m = quad();
    add_weight(&mut m, 0, 1, 0.5);
    add_weight(&mut m, 0, 2, 0.5);
    assert!((weight_sum(&m, 0) - 1.0).abs() < 1e-6);
}

#[test]
fn add_weight_caps_influences_and_normalizes() {
    let mut m = quad();
    for b in 0..6u16 {
        add_weight(&mut m, 0, b, (b as f32 + 1.0) * 0.1);
    }
    let bones: Vec<u16> =
        m.influences[0].iter().filter(|i| num(i.weight) > 0.0).map(|i| i.bone).collect();
    assert!(bones.len() <= MAX_INFLUENCES);
    assert!((weight_sum(&m, 0) - 1.0).abs() < 1e-6);
    assert_eq!(m.dominant_bone(0), Some(5));
}

#[test]
fn add_weight_erases_with_negative_delta() {
    let mut m = quad();
    add_weight(&mut m, 0, 1, 0.6);
    add_weight(&mut m, 0, 2, 0.4);
    add_weight(&mut m, 0, 1, -1.0);
    assert_eq!(m.dominant_bone(0), Some(2));
    assert!((weight_sum(&m, 0) - 1.0).abs() < 1e-6);
}

#[test]
fn normalizing_keeps_proportions_and_empty_sets() {
    let mut m = quad();
    let slot = |bone, w| Influence { bone, weight: sc(w) };
    m.set_influences(0, [slot(3, 1.0), slot(4, 3.0), slot(5, -2.0), Influence::none()]);
    normalize_all(&mut m);
    let weights = m.influences[0].map(|i| num(i.weight));
    assert_eq!(weights, [0.25, 0.75, 0.0, 0.0]);
    assert_eq!(weight_sum(&m, 1), 0.0);
}

#[test]
fn strokes_stay_between_zero_and_one() {
    assert_eq!(stroke_target(sc(0.5), sc(1.25)), Some(Scalar::one()));
    assert_eq!(stroke_target(sc(-0.5), sc(-0.25)), Some(Scalar::zero()));
    assert_eq!(stroke_target(sc(0.5), sc(0.75)), Some(sc(0.75)));
    assert_eq!(stroke_target(sc(0.0), sc(0.75)), None);
    assert_eq!(stroke_target(sc(-0.0), sc(0.75)), None);
}

#[test]
fn paint_with_falloff_scales() {
    let mut m = two_vert_mesh(-1.0, 1.0);
    let mut sel = VertexSelection::new(2);
    sel.set(0, true);
    let mut fo = HashMap::new();
    fo.insert(0u32, 0.5);
    paint(&mut m, &sel, 2, 1.0, Some(&fo));
    assert_eq!(m.dominant_bone(0), Some(2));
    assert_eq!(m.dominant_bone(1), None);
}

#[test]
fn falloff_scales_what_a_second_bone_gets() {
    let mut m = two_vert_mesh(-1.0, 1.0);
    m.set_rigid(0, 0);
    let mut sel = VertexSelection::new(2);
    sel.set(0, true);
    paint(&mut m, &sel, 2, 0.5, Some(&HashMap::from([(0u32, 0.5)])));
    assert_eq!(m.influences[0][0], Influence { bone: 0, weight: sc(0.75) });
    assert_eq!(m.influences[0][1], Influence { bone: 2, weight: sc(0.25) });
}

#[test]
fn smooth_pulls_toward_neighbour() {
    let mut m = two_vert_mesh(0.0, 1.0);
    m.set_rigid(0, 0);
    m.set_rigid(1, 1);
    let mut sel = VertexSelection::new(2);
    sel.set(0, true);
    smooth(&mut m, &sel, 1, 0.5);
    let has_bone1 = m.influences[0].iter().any(|i| i.bone == 1 && num(i.weight) > 0.0);
    assert!(has_bone1);
    assert_eq!(m.dominant_bone(1), Some(1));
    assert_eq!(m.influences[1][0].weight, Scalar::one());
}

#[test]
fn prune_drops_small_weights() {
    let mut m = two_vert_mesh(0.0, 1.0);
    add_weight(&mut m, 0, 0, 0.95);
    add_weight(&mut m, 0, 1, 0.05);
    prune(&mut m, 0.1);
    assert_eq!(m.dominant_bone(0), Some(0));
    let count = m.influences[0].iter().filter(|i| num(i.weight) > 0.0).count();
    assert_eq!(count, 1);
}

fn sided_skeleton() -> Skeleton {
    let mut sk = Skeleton::new();
    sk.add(Bone::root("arm_L"));
    sk.add(Bone::root("arm_R"));
    sk.add(Bone::root("spine"));
    sk
}

#[test]
fn mirroring_writes_only_the_other_side() {
    let mut m = SkinnedMesh::new(
        vec![corner(-1.0, 0.0), corner(1.0, 0.0), corner(0.0, 0.0), corner(-3.0, 0.0)],
        vec![],
    );
    m.set_rigid(0, 0);
    m.set_rigid(2, 2);
    m.set_rigid(3, 0);
    assert_eq!(mirror(&mut m, &sided_skeleton(), 0, 1e-3, true), 1);
    assert_eq!(m.dominant_bone(0), Some(0));
    assert_eq!(m.dominant_bone(1), Some(1));
    assert_eq!(m.dominant_bone(2), Some(2));
    assert_eq!(m.dominant_bone(3), Some(0));
}

#[test]
fn copies_run_from_the_source_side_to_partners() {
    let m = SkinnedMesh::new(vec![corner(-1.0, 0.0), corner(1.0, 0.0), corner(2.0, 0.0)], vec![]);
    let partners = vec![Some(1), Some(0), None];
    assert_eq!(mirror_copies(&m, &partners, 0, sc(1e-3), true), vec![(0, 1)]);
    assert_eq!(mirror_copies(&m, &partners, 0, sc(1e-3), false), vec![(1, 0)]);
}

#[test]
fn mirroring_bones_twice_restores_them() {
    let table = build_bone_mirror_map(&sided_skeleton());
    let slot = |bone, w| Influence { bone, weight: sc(w) };
    let set = [slot(0, 0.5), slot(2, 0.3), slot(1, 0.2), Influence::none()];
    let once = mirrored_influences(&set, &table);
    assert_eq!(once, [slot(1, 0.5), slot(2, 0.3), slot(0, 0.2), Influence::none()]);
    assert_eq!(mirrored_influences(&once, &table), set);
}

#[test]
fn carrying_over_writes_partners_only() {
    let table = build_bone_mirror_map(&sided_skeleton());
    let mut m = SkinnedMesh::new(vec![corner(0.0, 0.0); 4], vec![]);
    m.set_rigid(0, 0);
    m.set_rigid(1, 2);
    m.set_rigid(3, 1);
    carry_over(&mut m, &vec![(0, 2), (1, 2)], &table);
    assert_eq!(m.dominant_bone(2), Some(2));
    assert_eq!([m.dominant_bone(0), m.dominant_bone(1), m.dominant_bone(3)], [
        Some(0),
        Some(2),
        Some(1)
    ]);
    carry_over(&mut m, &vec![(0, 2)], &table);
    assert_eq!(m.influences[2][0], Influence { bone: 1, weight: Scalar::one() });
}

// ── colours ─────────────────────────────────────────────────────────────────

fn mesh3() -> SkinnedMesh {
    let mut m =
        SkinnedMesh::new(vec![corner(0.0, 0.0), corner(1.0, 0.0), corner(2.0, 0.0)], vec![0, 1, 2]);
    m.set_rigid(0, 0);
    m.set_rigid(1, 1);
    m
}

#[test]
fn dominant_colors_distinguish_bones_and_unweighted() {
    let m = mesh3();
    let c = weight_colors(&m, WeightView::DominantBone, None);
    assert_eq!(c.len(), 3);
    assert_ne!(c[0], c[1]);
    assert_eq!(c[2], [0.35, 0.35, 0.35, 1.0].map(sc));
}

#[test]
fn gradient_full_weight_is_hot() {
    let m = mesh3();
    let c = weight_colors(&m, WeightView::Gradient, Some(0));
    assert!(num(c[0][0]) > 0.9 && num(c[0][2]) < 0.1);
    assert_eq!(c[1], [0.15, 0.15, 0.18, 1.0].map(sc));
    let plain = weight_colors(&m, WeightView::Gradient, None);
    assert_eq!(plain, vec![[Scalar::one(); 4]; 3]);
}

#[test]
fn selection_blend_moves_toward_highlight() {
    let m = mesh3();
    let mut c = weight_colors(&m, WeightView::DominantBone, None);
    let before = c[0];
    let mut sel = VertexSelection::new(3);
    sel.set(0, true);
    blend_selection(&mut c, &sel, [1.0, 1.0, 1.0], 0.5);
    assert_ne!(c[0], before);
    assert!(c[1] == weight_colors(&m, WeightView::DominantBone, None)[1]);
    assert_eq!(c[0][3], before[3]);
    blend_selection(&mut c, &sel, [1.0, 0.0, 0.5], 7.0);
    assert_eq!(c[0], [1.0, 0.0, 0.5, 1.0].map(sc));
}

#[test]
fn hsv_primary_colors() {
    assert_eq!(hsv_to_rgb(0.0, 1.0, 1.0), [1.0, 0.0, 0.0]);
    let g = hsv_to_rgb(1.0 / 3.0, 1.0, 1.0);
    assert!(g[1] > 0.9 && g[0] < 0.1);
    let [v, p, q, t] = [4.0, 1.0, 2.0, 3.0].map(sc);
    assert_eq!(viz::hsv_to_rgb(1, v, p, q, t), [q, v, p]);
    assert_eq!(viz::hsv_to_rgb(2, v, p, q, t), [p, v, t]);
    assert_eq!(viz::hsv_to_rgb(3, v, p, q, t), [p, q, v]);
    assert_eq!(viz::hsv_to_rgb(4, v, p, q, t), [t, p, v]);
    assert_eq!(viz::hsv_to_rgb(5, v, p, q, t), [v, p, q]);
}

#[test]
fn heat_runs_from_blue_to_red() {
    assert_eq!(heat(0.0), [0.0, 0.0, 1.0]);
    assert_eq!(heat(0.25), [0.0, 1.0, 1.0]);
    assert_eq!(heat(0.5), [0.0, 1.0, 0.0]);
    assert_eq!(heat(0.75), [1.0, 1.0, 0.0]);
    assert_eq!(heat(1.0), [1.0, 0.0, 0.0]);
    assert_eq!(heat(-3.0), heat(0.0));
    assert_eq!(heat(7.0), heat(1.0));
}

#[test]
fn heat_bands_ascend() {
    let band = |w: f32| viz::heat_band(sc(w)).1;
    assert!(matches!(band(0.1), HeatBand::BlueToCyan));
    assert!(matches!(band(0.25), HeatBand::CyanToGreen));
    assert!(matches!(band(0.6), HeatBand::GreenToYellow));
    assert!(matches!(band(0.75), HeatBand::YellowToRed));
    assert!(matches!(band(f32::NAN), HeatBand::YellowToRed));
}

// ── screen ──────────────────────────────────────────────────────────────────

fn camera() -> (Mat4, Vec3) {
    let eye = Vec3::new(0.5, 0.5, 3.0);
    let view = Mat4::look_at_rh(eye, Vec3::new(0.5, 0.5, 0.0), Vec3::Y);
    (Mat4::perspective_rh(1.0, 1.0, 0.1, 100.0) * view, eye)
}

#[test]
fn project_behind_camera_is_none() {
    let view = Mat4::look_at_rh(Vec3::ZERO, Vec3::new(0.0, 0.0, -1.0), Vec3::Y);
    let vp = Mat4::perspective_rh(1.0, 1.0, 0.1, 100.0) * view;
    let viewport = Vec2::new(100.0, 100.0);
    assert!(project(&vp, Vec3::new(0.0, 0.0, 5.0), viewport).is_none());
    let ahead = project(&vp, Vec3::new(0.0, 0.0, -5.0), viewport);
    assert_eq!(ahead, Some(point(Vec2::new(50.0, 50.0))));
    let pixel = point(Vec2::new(1.0, 2.0));
    assert_eq!(select::project(sc(1e-6), pixel), None);
    assert_eq!(select::project(sc(2e-6), pixel), Some(pixel));
}

#[test]
fn paint_falls_off_with_distance() {
    let mut sk = Skeleton::new();
    let r = sk.add(Bone::root("root"));
    let up = Mat4::from_translation(Vec3::new(0.0, 1.0, 0.0));
    sk.add(Bone::new("tip", Some(r), from_mat4(up)));
    let mut c = RigController::new();
    c.state = RigState::new(quad(), sk);
    c.state.active_bone = Some(1);
    c.state.front_facing_only = false;
    c.state.brush_radius = sc(1000.0);
    c.state.paint_strength = sc(0.5);
    let (vp, eye) = camera();
    let screen = screen_vertices(&c.state.mesh, &vp, Vec2::new(800.0, 600.0), eye);
    let apart = distances(&screen, Vec2::new(400.0, 300.0));
    let (bone, hits) = c.paint_hits(&screen, &apart).unwrap();
    assert_eq!(bone, 1);
    assert!(!hits.is_empty());
    let falloff = hits.iter().map(|&v| (v, 1.0 - num(apart[v as usize]) / 1000.0)).collect();
    let mut sel = VertexSelection::new(4);
    sel.apply(&hits, select::SelectMode::Replace);
    paint(&mut c.state.mesh, &sel, bone, 0.5, Some(&falloff));
    let painted = |inf: &VertexInfluences| inf.iter().any(|i| i.bone == 1 && num(i.weight) > 0.0);
    assert!(c.state.mesh.influences.iter().any(painted));
}

#[test]
fn brush_takes_what_its_radius_covers() {
    let m = quad();
    let (vp, eye) = camera();
    let viewport = Vec2::new(800.0, 800.0);
    let at = position(project(&vp, Vec3::ZERO, viewport).unwrap());
    let filter = ScreenFilter { front_facing_only: true };
    assert_eq!(brush(&m, &vp, viewport, at, 5.0, eye, filter), vec![0]);
    let behind = Vec3::new(0.5, 0.5, -3.0);
    assert!(brush(&m, &vp, viewport, at, 5.0, behind, filter).is_empty());
}

#[test]
fn lines_at_the_active_head_are_highlighted() {
    assert!(is_highlighted(Some(sc(0.0))));
    assert!(!is_highlighted(Some(sc(1e-3))));
    assert!(!is_highlighted(None));
}

#[test]
fn lasso_lines_agree_with_a_square() {
    let square = [
        Vec2::new(0.0, 0.0),
        Vec2::new(10.0, 0.0),
        Vec2::new(10.0, 10.0),
        Vec2::new(0.0, 10.0),
    ];
    assert!(point_in_polygon(Vec2::new(5.0, 5.0), &square));
    assert!(!point_in_polygon(Vec2::new(15.0, 5.0), &square));
    let screen = vec![
        ScreenVertex { point: Some(point(Vec2::new(5.0, 5.0))), leaning: sc(1.0) },
        ScreenVertex { point: None, leaning: sc(1.0) },
        ScreenVertex { point: Some(point(Vec2::new(-5.0, 5.0))), leaning: sc(1.0) },
    ];
    let corners = square.iter().map(|&p| point(p)).collect();
    let x_at = edge_crossings(&screen, &square);
    let filter = ScreenFilter { front_facing_only: false };
    assert_eq!(select::lasso(&screen, &corners, &x_at, filter), vec![0]);
    assert_eq!(squared_distances(&screen, Vec2::ZERO)[0], sc(50.0));
}
