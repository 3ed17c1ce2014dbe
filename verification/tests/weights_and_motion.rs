use std::collections::HashMap;

use cube_rig::anim::{driving_track, key_span, AnimationClip, BoneTrack, KeySpan};
use cube_rig::bridge::{
    check_buffers, effective_iterations, hinge_range, read_request, CRF_ERR_BAD_SKELETON,
    CRF_ERR_INVALID_ARG, CRF_ERR_NULL_POINTER, CRF_NO_PARENT, CRF_OK,
};
use cube_rig::clip::{bakes_single_frame, root_bone, Clip, Frame};
use cube_rig::collision::{collision_pairs, count_penetrations, first_child, has_capsule};
use cube_rig::extract::{
    canonical_bone_count, clip_source, stats_of, ClipSource, ExtractError, ExtractStats,
};
use cube_rig::ik::{chain_biases, DlsParams, Pose};
use cube_rig::import::ImportError;
use cube_rig::mesh::{Influence, RigVertex, SkinnedMesh};
use cube_rig::prior::{
    any_dense, build_prior, finalize_cell, goal_cell, BucketStats, GoalDescriptor, JointBias,
    MotionPrior, FALLBACK_CELL,
};
use cube_rig::scalar::Scalar;
use cube_rig::select::VertexSelection;
use cube_rig::skeleton::{identity, Bone, Matrix, Skeleton};
use cube_rig::viz::{
    dominant_bone_colors, weight_colors, weight_gradient_colors, Tint, WeightView,
};
use cube_rig::weights::{
    bind_rigid, build_bone_mirror_map, drop_small_weights, group_by_bone, mirror_bone_name,
    mirror_target, mirrored_influences, nearest_within, paint_targets, smooth_steps,
    top_influences,
};
use glam::{Mat4, Vec3};

fn sc(x: f32) -> Scalar {
    Scalar::from_bits(x.to_bits())
}

fn fl(s: Scalar) -> f32 {
    f32::from_bits(s.to_bits())
}

fn mat(m: Mat4) -> Matrix {
    m.to_cols_array().map(sc)
}

fn mat4(m: &Matrix) -> Mat4 {
    Mat4::from_cols_array(&m.map(fl))
}

fn inf(bone: u16, weight: f32) -> Influence {
    Influence { bone, weight: sc(weight) }
}

fn vertex(x: f32) -> RigVertex {
    RigVertex {
        position: [sc(x), sc(0.0), sc(0.0)],
        normal: [sc(0.0), sc(1.0), sc(0.0)],
        uv: [sc(0.0), sc(0.0)],
    }
}

fn two_vert_mesh(x0: f32, x1: f32) -> SkinnedMesh {
    SkinnedMesh::new(vec![vertex(x0), vertex(x1)], vec![0, 1, 0])
}

fn selected(n: usize, list: &[usize]) -> VertexSelection {
    let mut sel = VertexSelection::new(n);
    for &v in list {
        sel.set(v, true);
    }
    sel
}

#[test]
fn rigid_bind_over_selection() {
    let mut m = two_vert_mesh(-1.0, 1.0);
    let mut sel = VertexSelection::new(2);
    sel.set(0, true);
    sel.set(1, true);
    bind_rigid(&mut m, &sel, 3);
    assert_eq!(m.dominant_bone(0), Some(3));
    assert_eq!(m.dominant_bone(1), Some(3));
}

#[test]
fn mirror_swaps_left_right_bone() {
    let mut sk = Skeleton::new();
    sk.add(Bone::new("arm_L", None, identity()));
    sk.add(Bone::new("arm_R", None, identity()));

    let mut m = two_vert_mesh(-1.0, 1.0);
    m.set_rigid(0, 0);

    let table = build_bone_mirror_map(&sk);
    let tolerance = 1e-3f32;
    let mut n = 0;
    let before = m.influences.clone();
    for v in 0..2usize {
        let Some(t) = mirror_target(m.vertices[v].position, 0, sc(tolerance), true) else {
            continue;
        };
        let target = Vec3::from(t.map(fl));
        let distances: Vec<Scalar> = m
            .vertices
            .iter()
            .map(|w| sc((Vec3::from(w.position.map(fl)) - target).length_squared()))
            .collect();
        if let Some(w) = nearest_within(&distances, sc(tolerance * tolerance), v) {
            m.set_influences(w, mirrored_influences(&before[v], &table));
            n += 1;
        }
    }
    assert_eq!(n, 1);
    assert_eq!(m.dominant_bone(1), Some(1));
}

#[test]
fn mirror_name_pairs() {
    assert_eq!(mirror_bone_name("hand_L").as_deref(), Some("hand_R"));
    assert_eq!(mirror_bone_name("hand_R").as_deref(), Some("hand_L"));
    assert_eq!(mirror_bone_name("Leg.L").as_deref(), Some("Leg.R"));
    assert_eq!(mirror_bone_name("spine"), None);
}

#[test]
fn mirroring_a_name_twice_gives_it_back() {
    for name in ["hand_L", "hand_R", "foot.L", "foot.R", "a_left", "a_right", "b_l", "b_r", "_L"] {
        if let Some(other) = mirror_bone_name(name) {
            assert_eq!(mirror_bone_name(&other).as_deref(), Some(name));
        }
    }
}

#[test]
fn paint_reaches_the_selected_vertices_with_their_falloff() {
    let sel = selected(3, &[0, 2]);
    assert_eq!(paint_targets(&sel, None), vec![(0, sc(1.0)), (2, sc(1.0))]);
    let mut falloff = HashMap::new();
    falloff.insert(0u32, sc(0.5));
    let got = paint_targets(&sel, Some(&falloff));
    assert_eq!(got[0], (0, sc(0.5)));
}

#[test]
fn smoothing_reads_the_neighbours() {
    let mut m = two_vert_mesh(0.0, 1.0);
    m.set_rigid(0, 0);
    m.set_rigid(1, 1);
    let steps = smooth_steps(&mut m, &selected(2, &[0]));
    assert_eq!(steps.len(), 1);
    assert_eq!(steps[0].vertex, 0);
    assert!(steps[0].neighbours.iter().any(|s| s.bone == 1));
    assert!(steps[0].own.iter().any(|s| s.bone == 0));
    assert!(steps[0].neighbour_count >= 1);
}

#[test]
fn shares_are_grouped_by_bone() {
    let shares = group_by_bone(&vec![inf(2, 0.5), inf(1, 0.25), inf(2, 0.125)]);
    let two = shares.iter().find(|s| s.bone == 2).unwrap();
    assert_eq!(two.weights, vec![sc(0.5), sc(0.125)]);
    assert_eq!(shares.len(), 2);
    let top = top_influences(&vec![inf(1, 0.1), inf(2, 0.9)]);
    assert_eq!(top[0], inf(2, 0.9));
}

#[test]
fn small_weights_are_dropped() {
    let mut m = two_vert_mesh(0.0, 1.0);
    m.set_influences(0, [inf(0, 0.95), inf(1, 0.05), Influence::none(), Influence::none()]);
    drop_small_weights(&mut m, sc(0.1));
    assert_eq!(m.dominant_bone(0), Some(0));
    let count = m.influences[0].iter().filter(|i| fl(i.weight) > 0.0).count();
    assert_eq!(count, 1);
}

fn mesh3() -> SkinnedMesh {
    let mut m = SkinnedMesh::new(vec![vertex(0.0), vertex(1.0), vertex(2.0)], vec![0, 1, 2]);
    m.set_rigid(0, 0);
    m.set_rigid(1, 1);
    m
}

#[test]
fn tints_follow_the_view() {
    let m = mesh3();
    assert_eq!(dominant_bone_colors(&m), vec![Tint::Bone(0), Tint::Bone(1), Tint::Unweighted]);
    assert_eq!(
        weight_gradient_colors(&m, 0),
        vec![Tint::Heat(sc(1.0)), Tint::Uninfluenced, Tint::Uninfluenced]
    );
    assert_eq!(weight_colors(&m, WeightView::Off, Some(0)), vec![Tint::Plain; 3]);
    assert_eq!(weight_colors(&m, WeightView::DominantBone, None), dominant_bone_colors(&m));
    assert_eq!(weight_colors(&m, WeightView::Gradient, Some(1))[1], Tint::Heat(sc(1.0)));
}

#[test]
fn clip_duration_is_latest_key() {
    let mut clip = AnimationClip::new("a");
    let mut tr = BoneTrack::new(0);
    tr.translation = vec![(sc(0.0), [sc(0.0); 3]), (sc(2.5), [sc(1.0), sc(0.0), sc(0.0)])];
    clip.tracks.push(tr);
    assert_eq!(clip.duration(), sc(2.5));
}

#[test]
fn key_spans_bracket_the_moment() {
    let times = vec![sc(0.0), sc(1.0), sc(2.0)];
    assert_eq!(key_span(&times, sc(-1.0)), KeySpan::At(0));
    assert_eq!(key_span(&times, sc(0.5)), KeySpan::Between(1));
    assert_eq!(key_span(&times, sc(1.5)), KeySpan::Between(2));
    assert_eq!(key_span(&times, sc(5.0)), KeySpan::At(2));
    assert_eq!(key_span(&Vec::new(), sc(0.0)), KeySpan::Empty);
}

#[test]
fn the_last_track_of_a_bone_drives_it() {
    let mut clip = AnimationClip::new("a");
    clip.tracks.push(BoneTrack::new(1));
    clip.tracks.push(BoneTrack::new(0));
    clip.tracks.push(BoneTrack::new(1));
    assert_eq!(driving_track(&clip, 1, 2), Some(2));
    assert_eq!(driving_track(&clip, 1, 1), None);
    assert_eq!(driving_track(&clip, 5, 9), None);
    assert_eq!(clip.tracks[0].last_time(), sc(0.0));
}

fn frame(rotations: usize) -> Frame {
    Frame { root: identity(), local_rotations: vec![[sc(0.0), sc(0.0), sc(0.0), sc(1.0)]; rotations] }
}

fn clip_of(frames: usize, rotations: usize) -> Clip {
    Clip {
        name: "c".to_string(),
        frame_rate: sc(30.0),
        frames: (0..frames).map(|_| frame(rotations)).collect(),
    }
}

#[test]
fn still_clips_are_single_frames() {
    let clip = AnimationClip::new("static");
    assert!(bakes_single_frame(clip.duration(), sc(30.0)));
    assert_eq!(clip_of(1, 2).duration_steps(), None);
    assert!(bakes_single_frame(sc(1.0), sc(0.0)));
    assert!(!bakes_single_frame(sc(1.0), sc(30.0)));
    assert_eq!(clip_of(11, 2).duration_steps(), Some(10));
}

#[test]
fn frames_follow_the_only_root() {
    let mut sk = Skeleton::new();
    sk.add(Bone::new("a", None, identity()));
    sk.add(Bone::new("b", Some(0), identity()));
    assert_eq!(root_bone(&sk), 0);
    sk.bones[0].parent = Some(1);
    sk.bones[1].parent = None;
    assert_eq!(root_bone(&sk), 1);
    sk.bones[0].parent = None;
    assert_eq!(root_bone(&sk), 0);
}

#[test]
fn clips_from_path_ignores_unknown_extension() {
    assert_eq!(clip_source("txt"), ClipSource::Other);
    assert_eq!(clip_source("Json"), ClipSource::Json);
    assert_eq!(clip_source("GLB"), ClipSource::Gltf);
    assert_eq!(clip_source("gltf"), ClipSource::Gltf);
}

#[test]
fn extraction_counts_files_clips_frames_and_bones() {
    let clips = vec![clip_of(5, 2), clip_of(5, 2)];
    let stats = stats_of(2, &clips);
    assert_eq!(stats.files, 2);
    assert_eq!(stats.clips, 2);
    assert_eq!(stats.frames, 10);
    assert_eq!(stats.bones, 2);
    assert_eq!(canonical_bone_count(&vec![clip_of(1, 2), clip_of(1, 7)]), 7);
    assert_eq!(ExtractStats::default().files, 0);
}

#[test]
fn extraction_errors_say_what_happened() {
    assert_eq!(ExtractError::Io("gone".to_string()).to_message(), "I/O error: gone");
    assert_eq!(ExtractError::Json("bad".to_string()).to_message(), "JSON error: bad");
    assert_eq!(
        ExtractError::Import(ImportError::NoGeometry).to_message(),
        "import error: file contained no geometry"
    );
}

fn goal_at(x: f32, y: f32, z: f32) -> GoalDescriptor {
    let t = Vec3::new(x, y, z);
    let a = t.normalize_or_zero();
    GoalDescriptor {
        target_local: [sc(x), sc(y), sc(z)],
        target_length: sc(t.length()),
        approach_local: [sc(a.x), sc(a.y), sc(a.z)],
        action_tag: None,
    }
}

#[test]
fn missing_bone_returns_default_bias() {
    let prior = MotionPrior::default();
    let bias = prior.bias(42, &goal_at(0.0, 0.0, 0.0));
    assert_eq!(bias.axis_weight, [sc(1.0); 3]);
    assert_eq!(bias.preferred, [sc(0.0), sc(0.0), sc(0.0), sc(1.0)]);
    assert!(prior.is_empty());
}

#[test]
fn goal_cell_is_stable_and_distinguishes_direction_and_distance() {
    let x = goal_at(1.0, 0.0, 0.0);
    assert_eq!(goal_cell(&x), goal_cell(&goal_at(1.0, 0.0, 0.0)));
    let y = goal_at(0.0, 1.0, 0.0);
    assert_ne!(goal_cell(&x), goal_cell(&y));
    let near = goal_at(0.2, 0.0, 0.0);
    let far = goal_at(3.0, 0.0, 0.0);
    assert_ne!(goal_cell(&near), goal_cell(&far));
    assert_eq!(goal_cell(&goal_at(0.0, 0.0, 0.0)), FALLBACK_CELL);
    assert_eq!(goal_cell(&goal_at(0.0, 0.0, -3.0)), 17);
}

fn bias_of(w: f32) -> JointBias {
    JointBias { axis_weight: [sc(w); 3], preferred: [sc(0.0), sc(0.0), sc(0.0), sc(1.0)] }
}

#[test]
fn cells_keep_dense_bones_and_fall_back_to_all_goals() {
    let global = BucketStats {
        cell: FALLBACK_CELL,
        counts: vec![9, 9, 0],
        biases: vec![bias_of(2.0), bias_of(3.0), bias_of(4.0)],
    };
    let cell = goal_cell(&goal_at(1.0, 0.0, 0.0));
    let other = goal_cell(&goal_at(0.0, 1.0, 0.0));
    let buckets = vec![
        BucketStats { cell, counts: vec![5, 1, 0], biases: vec![bias_of(7.0); 3] },
        BucketStats { cell: other, counts: vec![1, 1, 1], biases: vec![bias_of(8.0); 3] },
    ];
    let prior = build_prior(&global, &buckets);
    assert_eq!(prior.num_cells(), 1);
    assert_eq!(prior.len(), 3);
    let goal = goal_at(1.0, 0.0, 0.0);
    assert_eq!(prior.bias(0, &goal), bias_of(7.0));
    assert_eq!(prior.bias(1, &goal), bias_of(3.0));
    assert_eq!(prior.bias(2, &goal), bias_of(1.0));
    assert_eq!(prior.bias(0, &goal_at(0.0, 1.0, 0.0)), bias_of(2.0));
    assert!(any_dense(&vec![0, 2], 2));
    assert!(!any_dense(&vec![0, 1], 2));
    assert_eq!(finalize_cell(&buckets[0], 2), vec![Some(bias_of(7.0)), None, None]);
    let chain = vec![1usize, 0];
    assert_eq!(chain_biases(Some(&prior), &chain, &goal), vec![bias_of(3.0), bias_of(7.0)]);
    assert_eq!(chain_biases(None, &chain, &goal), vec![bias_of(1.0); 2]);
}

#[test]
fn cells_fall_back_bone_by_bone() {
    let mut prior = MotionPrior::default();
    prior.global = vec![bias_of(2.0), bias_of(3.0)];
    prior.cells.insert(7, vec![None, Some(bias_of(5.0)), None]);
    assert_eq!(prior.cell_bias(0, 7), bias_of(2.0));
    assert_eq!(prior.cell_bias(1, 7), bias_of(5.0));
    assert_eq!(prior.cell_bias(2, 7), bias_of(1.0));
    assert_eq!(prior.cell_bias(1, 8), bias_of(3.0));
}

fn arm() -> Skeleton {
    let mut sk = Skeleton::new();
    let r = sk.add(Bone::root("root"));
    let c = sk.add(Bone::new("c", Some(r), mat(Mat4::from_translation(Vec3::new(0.0, 1.0, 0.0)))));
    sk.add(Bone::new("d", Some(c), mat(Mat4::from_translation(Vec3::new(0.0, 2.0, 0.0)))));
    sk
}

#[test]
fn pose_from_bind_matches_skeleton() {
    let sk = arm();
    let pose = Pose::from_bind(&sk);
    let posed = pose.factors(&sk, 1).iter().fold(Mat4::IDENTITY, |m, f| m * mat4(f));
    let bound = sk
        .bind_path(1)
        .iter()
        .fold(Mat4::IDENTITY, |m, &b| m * mat4(&sk.bones[b].local_bind));
    assert_eq!(posed.w_axis.truncate(), bound.w_axis.truncate());
    assert_eq!(pose.factors(&sk, 2).len(), 3);
}

#[test]
fn solving_stops_at_the_goal_or_the_limit() {
    let p = DlsParams::default();
    assert!(p.keeps_going(0, sc(1.0)));
    assert!(!p.keeps_going(p.iterations, sc(1.0)));
    assert!(!p.keeps_going(0, sc(0.0)));
    assert!(p.posture_on());
    let off = DlsParams { posture_gain: sc(0.0), ..DlsParams::default() };
    assert!(!off.posture_on());
}

#[test]
fn neighbours_are_not_tested_for_collision() {
    let mut sk = arm();
    sk.add(Bone::new("e", Some(2), identity()));
    assert_eq!(first_child(&sk, 0), Some(1));
    assert_eq!(first_child(&sk, 3), None);
    let pairs = collision_pairs(&sk, &vec![true, true, true, false]);
    assert_eq!(pairs, vec![(0, 2)]);
    assert!(has_capsule(Some(1), sc(0.5)));
    assert!(!has_capsule(Some(1), sc(0.0)));
    assert!(!has_capsule(None, sc(0.5)));
}

#[test]
fn the_deepest_penetration_counts_beyond_the_margin() {
    let depths = vec![Some(sc(0.1)), None, Some(sc(0.5)), Some(sc(0.3))];
    assert_eq!(count_penetrations(&depths, sc(0.2)), (2, Some(2)));
    assert_eq!(count_penetrations(&depths, sc(0.9)), (0, None));
}

fn planar_chain_arrays(n: usize) -> (Vec<u64>, Vec<Matrix>, Vec<u64>, u64) {
    let mut parents = vec![CRF_NO_PARENT; n + 1];
    let mut binds = vec![identity(); n + 1];
    let mut chain = vec![0u64];
    let step = mat(Mat4::from_translation(Vec3::new(1.0, 0.0, 0.0)));
    for i in 1..n {
        parents[i] = (i - 1) as u64;
        binds[i] = step;
        chain.push(i as u64);
    }
    parents[n] = (n - 1) as u64;
    binds[n] = step;
    (parents, binds, chain, n as u64)
}

#[test]
fn solve_chain_rejects_null_and_bad_args() {
    let (parents, binds, chain, effector) = planar_chain_arrays(2);
    assert_eq!(check_buffers(true, parents.len(), chain.len()), CRF_ERR_NULL_POINTER);
    assert_eq!(check_buffers(false, 0, chain.len()), CRF_ERR_INVALID_ARG);
    assert_eq!(check_buffers(false, parents.len(), 0), CRF_ERR_INVALID_ARG);
    assert_eq!(check_buffers(false, parents.len(), chain.len()), CRF_OK);
    assert_eq!(read_request(&parents, &binds, &chain, 999).err(), Some(CRF_ERR_INVALID_ARG));
    let request = read_request(&parents, &binds, &chain, effector).ok().unwrap();
    assert_eq!(request.skeleton.len(), 3);
    assert_eq!(request.skeleton.bones[2].name, "b2");
    assert_eq!(request.skeleton.bones[2].parent, Some(1));
    assert_eq!(request.chain, vec![0, 1]);
    assert_eq!(request.effector, 2);
    assert_eq!(read_request(&parents, &binds, &vec![0, 9], effector).err(), Some(CRF_ERR_INVALID_ARG));
    let circle = vec![1u64, CRF_NO_PARENT, 1];
    assert_eq!(read_request(&circle, &binds, &chain, effector).err(), Some(CRF_ERR_BAD_SKELETON));
}

#[test]
fn bridge_numbers_are_made_usable() {
    assert_eq!(effective_iterations(64), 64);
    assert!(effective_iterations(0) > 0);
    assert_eq!(effective_iterations(-3), effective_iterations(0));
    let z = [sc(0.0), sc(0.0), sc(1.0)];
    assert_eq!(hinge_range(z, sc(0.2), sc(1.0)), Some((sc(-0.2), sc(0.2))));
    assert_eq!(hinge_range(z, sc(-0.2), sc(1.0)), Some((sc(-0.2), sc(0.2))));
    assert_eq!(hinge_range([sc(0.0); 3], sc(0.2), sc(0.0)), None);
    assert_eq!(hinge_range(z, sc(f32::NAN), sc(1.0)), None);
    assert_eq!(hinge_range([sc(f32::INFINITY); 3], sc(0.2), sc(f32::INFINITY)), None);
}
