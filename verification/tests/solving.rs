//! Solvers driven by the library: key frames, limits, reaching, contacts and
//! priors.

use cube_rig::anim::{AnimationClip, BoneTrack, KeySpan, driving_track, key_span};
use cube_rig::bridge::{CRF_NO_PARENT, effective_iterations, hinge_range, read_request};
use cube_rig::buckets::{group_frames, sample_counts};
use cube_rig::clip::{Clip, Frame, bakes_single_frame, root_bone};
use cube_rig::collision::{
    self, AvoidParams, Closest, Contact, SegmentPair, collision_pairs, count_penetrations,
    finish_closest, first_child, has_capsule, has_direction, start_closest, touches,
};
use cube_rig::extract::{canonical_bone_count, goal_bone_count};
use cube_rig::ik::{
    DlsParams, JointStep, Pose, Reach, bends_to_pole, can_aim, chain_biases, pass_steps,
    reach_mode, sweeps_on,
};
use cube_rig::limits::{
    JointAngles, JointLimit, SwingReach, frame_axis, g1_29dof_limits, has_twist, is_still,
    limit_angles, unit_vector,
};
use cube_rig::prior::{
    BucketStats, FALLBACK_CELL, GoalDescriptor, JointBias, MotionPrior, build_prior, goal_cell,
    has_spread,
};
use cube_rig::scalar::Scalar;
use cube_rig::skeleton::{Bone, Matrix, Skeleton};
use glam::{Mat3, Mat4, Quat, Vec3};

// ── arithmetic around the rules ─────────────────────────────────────────────

fn sc(x: f32) -> Scalar {
    Scalar::from_bits(x.to_bits())
}

fn num(x: Scalar) -> f32 {
    f32::from_bits(x.to_bits())
}

fn vec3(v: [Scalar; 3]) -> Vec3 {
    Vec3::from_array(v.map(num))
}

fn from_vec3(v: Vec3) -> [Scalar; 3] {
    v.to_array().map(sc)
}

fn quat(q: [Scalar; 4]) -> Quat {
    Quat::from_array(q.map(num))
}

fn from_quat(q: Quat) -> [Scalar; 4] {
    q.to_array().map(sc)
}

fn mat4(m: &Matrix) -> Mat4 {
    Mat4::from_cols_array(&m.map(num))
}

fn from_mat4(m: Mat4) -> Matrix {
    m.to_cols_array().map(sc)
}

/// The rotation of a transform.
fn rotation_of(m: Mat4) -> Quat {
    m.to_scale_rotation_translation().1
}

/// Panics unless the ancestors of bone `i` lead to a root.
fn assert_rooted(skeleton: &Skeleton, i: usize) {
    let mut bone = i;
    for _ in 0..=skeleton.len() {
        match skeleton.bones[bone].parent {
            Some(p) => bone = p,
            None => return,
        }
    }
    panic!("the ancestors of bone {i} form a cycle");
}

fn product(factors: impl Iterator<Item = Mat4>) -> Mat4 {
    factors.reduce(|m, f| m * f).unwrap_or(Mat4::IDENTITY)
}

/// Model-space bind transform of bone `i`.
fn global_bind(skeleton: &Skeleton, i: usize) -> Mat4 {
    assert_rooted(skeleton, i);
    let path = skeleton.bind_path(i);
    product(path.iter().map(|&b| mat4(&skeleton.bones[b].local_bind)))
}

/// Takes a model-space vertex into the space of bone `i`.
fn inverse_bind(skeleton: &Skeleton, i: usize) -> Mat4 {
    global_bind(skeleton, i).inverse()
}

/// Model-space transform of bone `i` in a pose.
fn pose_global(pose: &Pose, skeleton: &Skeleton, i: usize) -> Mat4 {
    assert_eq!(pose.local.len(), skeleton.len());
    assert_rooted(skeleton, i);
    product(pose.factors(skeleton, i).iter().map(mat4))
}

/// Where bone `i` starts in a pose.
fn pose_head(pose: &Pose, skeleton: &Skeleton, i: usize) -> Vec3 {
    pose_global(pose, skeleton, i).w_axis.truncate()
}

/// For each bone, what takes its bind-space vertices to where the pose puts
/// them.
fn skinning_matrices(pose: &Pose, skeleton: &Skeleton) -> Vec<Mat4> {
    (0..skeleton.len())
        .map(|i| pose_global(pose, skeleton, i) * inverse_bind(skeleton, i))
        .collect()
}

/// The value of a track at `t`: one key, or `blend` of the keys around it.
fn sample<V: Copy, R>(
    keys: &[(Scalar, V)],
    t: f32,
    value: impl Fn(V) -> R,
    blend: impl Fn(R, R, f32) -> R,
) -> Option<R> {
    let times: Vec<Scalar> = keys.iter().map(|k| k.0).collect();
    match key_span(&times, sc(t)) {
        KeySpan::Empty => None,
        KeySpan::At(i) => Some(value(keys[i].1)),
        KeySpan::Between(i) => {
            let (t0, t1) = (num(keys[i - 1].0), num(keys[i].0));
            let f = ((t - t0) / (t1 - t0)).clamp(0.0, 1.0);
            Some(blend(value(keys[i - 1].1), value(keys[i].1), f))
        }
    }
}

fn sample_vec3(keys: &[(Scalar, [Scalar; 3])], t: f32) -> Option<Vec3> {
    sample(keys, t, vec3, |a, b, f| a.lerp(b, f))
}

fn sample_quat(keys: &[(Scalar, [Scalar; 4])], t: f32) -> Option<Quat> {
    sample(keys, t, quat, |a, b, f| a.slerp(b, f))
}

/// The pose of a clip at `time` seconds. Bones and channels without keys keep
/// their bind transform.
fn sample_pose(clip: &AnimationClip, skeleton: &Skeleton, time: f32) -> Pose {
    let mut pose = Pose::from_bind(skeleton);
    let t = time.clamp(0.0, num(clip.duration()));
    for bone in 0..skeleton.len().min(u16::MAX as usize + 1) {
        let Some(k) = driving_track(clip, bone as u16, skeleton.len()) else { continue };
        let track = &clip.tracks[k];
        let bind = mat4(&skeleton.bones[bone].local_bind);
        let (scale, rotation, translation) = bind.to_scale_rotation_translation();
        let local = Mat4::from_scale_rotation_translation(
            sample_vec3(&track.scale, t).unwrap_or(scale),
            sample_quat(&track.rotation, t).unwrap_or(rotation),
            sample_vec3(&track.translation, t).unwrap_or(translation),
        );
        pose.local[bone] = from_mat4(local);
    }
    pose
}

/// Sample an animation `fps` times a second, both ends included.
fn clip_from_animation(clip: &AnimationClip, skeleton: &Skeleton, fps: f32) -> Clip {
    let root = root_bone(skeleton);
    let duration = clip.duration();
    let frame_count = if bakes_single_frame(duration, sc(fps)) {
        1
    } else {
        (num(duration) * fps).ceil() as usize + 1
    };
    let frames = (0..frame_count)
        .map(|f| {
            let t = if fps > 0.0 { f as f32 / fps } else { 0.0 };
            let pose = sample_pose(clip, skeleton, t);
            Frame {
                root: from_mat4(pose_global(&pose, skeleton, root)),
                local_rotations: pose
                    .local
                    .iter()
                    .map(|m| from_quat(rotation_of(mat4(m))))
                    .collect(),
            }
        })
        .collect();
    Clip { name: clip.name.clone(), frame_rate: sc(fps), frames }
}

/// Length of a clip in seconds.
fn clip_duration(clip: &Clip) -> f32 {
    match clip.duration_steps() {
        Some(steps) => steps as f32 / num(clip.frame_rate),
        None => 0.0,
    }
}

// ── swing and twist ─────────────────────────────────────────────────────────

/// Split a rotation into a swing and a twist about `axis`; the swing after the
/// twist gives the rotation back.
fn swing_twist(rot: Quat, axis: Vec3) -> (Quat, Quat) {
    let axis = axis.normalize_or_zero();
    let r = Vec3::new(rot.x, rot.y, rot.z);
    let proj = axis * r.dot(axis);
    let along = Quat::from_xyzw(proj.x, proj.y, proj.z, rot.w);
    let twist = if has_twist(sc(along.length_squared())) {
        along.normalize()
    } else {
        Quat::IDENTITY
    };
    (rot * twist.inverse(), twist)
}

/// Angle of `q` about `axis`, signed and at most half a turn either way.
fn signed_angle_about(q: Quat, axis: Vec3) -> f32 {
    let axis = axis.normalize_or_zero();
    let s = Vec3::new(q.x, q.y, q.z).dot(axis);
    let (s, w) = if q.w < 0.0 { (-s, -q.w) } else { (s, q.w) };
    2.0 * s.atan2(w)
}

/// Two directions that span the plane across `axis`.
fn swing_plane(axis: Vec3) -> (Vec3, Vec3) {
    let t = axis.normalize_or_zero();
    let u = vec3(unit_vector(frame_axis(sc(t.x))));
    let u = (u - t * u.dot(t)).normalize_or_zero();
    (u, t.cross(u))
}

/// The two angles of a swing across `axis`.
fn swing_components(swing: Quat, axis: Vec3) -> (f32, f32) {
    let (sa, angle) = swing.to_axis_angle();
    let sv = sa.normalize_or_zero() * angle;
    let (u, v) = swing_plane(axis);
    (sv.dot(u), sv.dot(v))
}

/// How far a swing reaches in an elliptical cone with the given half angles.
fn swing_reach(su: f32, sv: f32, half: (Scalar, Scalar)) -> SwingReach {
    let measure = (su / num(half.0)).powi(2) + (sv / num(half.1)).powi(2);
    let scale = measure.sqrt().recip();
    SwingReach { measure: sc(measure), u: sc(su * scale), v: sc(sv * scale) }
}

/// Panics where a limit's lower end lies above its upper end.
fn assert_limit(limit: &JointLimit) {
    let ok = match limit {
        JointLimit::Hinge { min, max, .. } => min.at_most(*max),
        JointLimit::SwingTwist { twist, swing, .. } => {
            twist.0.at_most(twist.1)
                && Scalar::zero().at_most(swing.0)
                && Scalar::zero().at_most(swing.1)
        }
    };
    assert!(ok, "empty joint range");
}

/// The rotation within `limit` that is nearest in its angles.
fn clamp(rot: Quat, limit: &JointLimit) -> Quat {
    assert_limit(limit);
    match limit {
        JointLimit::Hinge { axis, .. } => {
            let axis = vec3(*axis);
            let angles = JointAngles {
                twist: sc(signed_angle_about(rot, axis)),
                swing_u: Scalar::zero(),
                swing_v: Scalar::zero(),
            };
            let still = SwingReach {
                measure: Scalar::zero(),
                u: Scalar::zero(),
                v: Scalar::zero(),
            };
            let twist = num(limit_angles(limit, angles, still).twist);
            Quat::from_axis_angle(axis.normalize_or_zero(), twist)
        }
        JointLimit::SwingTwist { twist_axis, swing: half, .. } => {
            let axis = vec3(*twist_axis);
            let (swing, twist) = swing_twist(rot, axis);
            let (su, sv) = swing_components(swing, axis);
            let angles = JointAngles {
                twist: sc(signed_angle_about(twist, axis)),
                swing_u: sc(su),
                swing_v: sc(sv),
            };
            let kept = limit_angles(limit, angles, swing_reach(su, sv, *half));
            let (u, v) = swing_plane(axis);
            let vector = u * num(kept.swing_u) + v * num(kept.swing_v);
            let swing = if is_still(sc(vector.length())) {
                Quat::IDENTITY
            } else {
                Quat::from_axis_angle(vector.normalize(), vector.length())
            };
            swing * Quat::from_axis_angle(axis.normalize_or_zero(), num(kept.twist))
        }
    }
}

// ── poses ───────────────────────────────────────────────────────────────────

/// Turn each bone of a chain from root to tip about its head, so that it points
/// at the next of the `solved` positions, which hold one more than the chain.
fn aim_chain(pose: &mut Pose, skeleton: &Skeleton, chain: &[usize], solved: &[Vec3]) {
    assert_eq!(solved.len(), chain.len() + 1);
    for (k, &bone) in chain.iter().enumerate() {
        let parent_global = match skeleton.bones[bone].parent {
            Some(p) => pose_global(pose, skeleton, p),
            None => Mat4::IDENTITY,
        };
        let local = mat4(&pose.local[bone]);
        let bone_global = parent_global * local;
        let head = bone_global.w_axis.truncate();
        let child = chain.get(k + 1).copied().unwrap_or(bone);
        let child_head = pose
            .local
            .get(child)
            .map(|m| mat4(m).w_axis.truncate())
            .unwrap_or(Vec3::Y);
        let current = (bone_global.transform_point3(child_head) - head).normalize_or_zero();
        let desired = (solved[k + 1] - head).normalize_or_zero();
        if !can_aim(sc(current.length_squared()), sc(desired.length_squared())) {
            continue;
        }
        let delta = Quat::from_rotation_arc(current, desired);
        let parent_rot = rotation_of(parent_global);
        let local_delta = parent_rot.inverse() * delta * parent_rot;
        let mut turned = Mat4::from_quat(local_delta) * local;
        turned.w_axis = local.w_axis;
        pose.local[bone] = from_mat4(turned);
    }
}

/// Reach back and forth along a chain of positions until its tip is at
/// `target`, keeping the first position and all distances.
fn fabrik(joints: &[Vec3], target: Vec3, iterations: usize, tolerance: f32) -> Vec<Vec3> {
    let n = joints.len();
    let mut p = joints.to_vec();
    let lengths: Vec<f32> = joints.windows(2).map(|w| (w[1] - w[0]).length()).collect();
    let total: f32 = lengths.iter().sum();
    let root = joints.first().copied().unwrap_or(Vec3::ZERO);
    match reach_mode(n, sc((target - root).length()), sc(total)) {
        Reach::Stay => {}
        Reach::Stretch => {
            let dir = (target - root).normalize_or_zero();
            for i in 1..n {
                p[i] = p[i - 1] + dir * lengths[i - 1];
            }
        }
        Reach::Sweep => {
            let mut done = 0;
            let mut distance = f32::INFINITY;
            while sweeps_on(done, iterations, sc(distance), sc(tolerance)) {
                p[n - 1] = target;
                for i in (0..n - 1).rev() {
                    let dir = (p[i] - p[i + 1]).normalize_or_zero();
                    p[i] = p[i + 1] + dir * lengths[i];
                }
                p[0] = root;
                for i in 0..n - 1 {
                    let dir = (p[i + 1] - p[i]).normalize_or_zero();
                    p[i + 1] = p[i] + dir * lengths[i];
                }
                distance = (p[n - 1] - target).length();
                done += 1;
            }
        }
    }
    p
}

/// Bend a limb of two bones toward `target`, its joint toward `pole`. Returns
/// where the joint and the end come to lie.
fn two_bone(
    root: Vec3,
    upper_len: f32,
    lower_len: f32,
    target: Vec3,
    pole: Vec3,
) -> (Vec3, Vec3) {
    let to_target = target - root;
    let dist = to_target.length().clamp(1e-6, upper_len + lower_len);
    let dir = to_target / to_target.length().max(1e-6);
    let cos_root = ((upper_len * upper_len + dist * dist - lower_len * lower_len)
        / (2.0 * upper_len * dist))
        .clamp(-1.0, 1.0);
    let root_angle = cos_root.acos();
    let projected = pole - root - dir * (pole - root).dot(dir);
    let pole_dir = if bends_to_pole(sc(projected.length_squared())) {
        projected.normalize_or_zero()
    } else {
        let any = vec3(unit_vector(frame_axis(sc(dir.x))));
        (any - dir * any.dot(dir)).normalize_or_zero()
    };
    let bend_axis = dir.cross(pole_dir).normalize_or_zero();
    let upper_dir = Quat::from_axis_angle(bend_axis, root_angle) * dir;
    let joint = root + upper_dir * upper_len;
    let end = joint + (target - joint).normalize_or_zero() * lower_len;
    (joint, end)
}

// ── damped least squares ────────────────────────────────────────────────────

/// How the point at the end of three world axes' rotation about `joint` moves.
fn columns_at(joint: Vec3, point: Vec3) -> [Vec3; 3] {
    let arm = point - joint;
    [Vec3::X.cross(arm), Vec3::Y.cross(arm), Vec3::Z.cross(arm)]
}

/// Sum of the weighted outer products of all columns, plus damping.
fn damped_matrix(columns: &[[Vec3; 3]], weights: &[Vec3], damping2: f32) -> Mat3 {
    let mut a = Mat3::IDENTITY * damping2;
    for (cols, w) in columns.iter().zip(weights) {
        for (c, wi) in cols.iter().zip(w.to_array()) {
            a += Mat3::from_cols(*c * c.x, *c * c.y, *c * c.z) * wi;
        }
    }
    a
}

fn weighted_dots(w: Vec3, cols: &[Vec3; 3], b: Vec3) -> Vec3 {
    Vec3::new(w.x * cols[0].dot(b), w.y * cols[1].dot(b), w.z * cols[2].dot(b))
}

/// Rotate one joint by `dq` in world space, within its limit, keeping its
/// offset from its parent.
fn apply_step(
    pose: &mut Pose,
    skeleton: &Skeleton,
    step: &JointStep,
    dq: Quat,
    limits: Option<&Vec<Option<JointLimit>>>,
) {
    let parent_rot = match step.parent {
        Some(p) => rotation_of(pose_global(pose, skeleton, p)),
        None => Quat::IDENTITY,
    };
    let world_rot = dq * rotation_of(pose_global(pose, skeleton, step.bone));
    let mut local_rot = parent_rot.inverse() * world_rot;
    if step.limited {
        if let Some(limit) = limits.and_then(|l| l.get(step.slot)).and_then(|l| l.as_ref()) {
            let bind_rot = rotation_of(mat4(&skeleton.bones[step.bone].local_bind));
            local_rot = bind_rot * clamp(bind_rot.inverse() * local_rot, limit);
        }
    }
    let translation = mat4(&pose.local[step.bone]).w_axis.truncate();
    pose.local[step.bone] = from_mat4(Mat4::from_rotation_translation(local_rot, translation));
}

/// What the goal of a reach is, as the prior knows it.
fn goal_of(target: Vec3, from: Vec3) -> GoalDescriptor {
    GoalDescriptor {
        target_local: from_vec3(target),
        target_length: sc(target.length()),
        approach_local: from_vec3((target - from).normalize_or_zero()),
        action_tag: None,
    }
}

/// Rotate the joints of `chain` until the head of `effector` is at `target`.
/// Returns how far it stays away.
fn solve_dls(
    pose: &mut Pose,
    skeleton: &Skeleton,
    chain: &Vec<usize>,
    effector: usize,
    target: Vec3,
    prior: Option<&MotionPrior>,
    limits: Option<&Vec<Option<JointLimit>>>,
    params: &DlsParams,
) -> f32 {
    if chain.is_empty() {
        return (target - pose_head(pose, skeleton, effector)).length();
    }
    assert!(chain.iter().all(|&b| b < skeleton.len()), "chain bone out of range");
    let goal = goal_of(target, pose_head(pose, skeleton, chain[0]));
    let biases = chain_biases(prior, chain, &goal);
    let weights: Vec<Vec3> = biases.iter().map(|b| vec3(b.axis_weight)).collect();
    let steps = pass_steps(skeleton, chain, limits, chain.len());
    let lambda2 = num(params.damping) * num(params.damping);
    let gain = num(params.posture_gain);

    let mut done = 0;
    loop {
        let e = pose_head(pose, skeleton, effector);
        let err = target - e;
        if !params.keeps_going(done, sc(err.length())) {
            return err.length();
        }
        let columns: Vec<[Vec3; 3]> =
            chain.iter().map(|&j| columns_at(pose_head(pose, skeleton, j), e)).collect();
        let a_inv = damped_matrix(&columns, &weights, lambda2).inverse();

        // The posture term pulls each joint toward its preferred rotation.
        let mut pull: Vec<Vec3> = Vec::new();
        let mut drift = Vec3::ZERO;
        if params.posture_on() {
            for (k, &j) in chain.iter().enumerate() {
                let local_rot = rotation_of(mat4(&pose.local[j]));
                let delta = quat(biases[k].preferred) * local_rot.inverse();
                let z = weights[k] * (gain * delta.to_scaled_axis());
                pull.push(z);
                drift += columns[k][0] * z.x + columns[k][1] * z.y + columns[k][2] * z.z;
            }
        }
        // Damping leaves a rest of the pull at the effector; the reach makes up
        // for it.
        let carried = a_inv * drift;
        let reach = if params.posture_on() { a_inv * (err - lambda2 * carried) } else { a_inv * err };

        for (k, step) in steps.iter().enumerate() {
            let mut turn = weighted_dots(weights[k], &columns[k], reach);
            if params.posture_on() {
                turn += pull[k] - weighted_dots(weights[k], &columns[k], carried);
            }
            let dq = Quat::from_scaled_axis(num(params.step) * turn);
            apply_step(pose, skeleton, step, dq, limits);
        }
        done += 1;
    }
}

/// All points within `radius` of the segment from `a` to `b`.
#[derive(Debug, Clone, Copy)]
struct Capsule {
    pub a: Vec3,
    pub b: Vec3,
    pub radius: f32,
}

/// The nearest points of two segments and their distance.
fn closest_segment_points(p1: Vec3, q1: Vec3, p2: Vec3, q2: Vec3) -> (Vec3, Vec3, f32) {
    let d1 = q1 - p1;
    let d2 = q2 - p2;
    let r = p1 - p2;
    let (a, e) = (d1.dot(d1), d2.dot(d2));
    let (b, c, f) = (d1.dot(d2), d1.dot(r), d2.dot(r));
    let spread = a * e - b * b;
    let pair = SegmentPair {
        first: sc(a),
        second: sc(e),
        on_second: sc(f / e),
        on_first: sc(-c / a),
        on_first_from_end: sc((b - c) / a),
        spread: sc(spread),
        crossing: sc((b * f - c * e) / spread),
    };
    let (s, t) = match start_closest(&pair) {
        Closest::Both(s, t) => (s, t),
        Closest::First(s) => finish_closest(&pair, s, sc((b * num(s) + f) / e)),
    };
    let c1 = p1 + d1 * num(s);
    let c2 = p2 + d2 * num(t);
    (c1, c2, (c2 - c1).length())
}

/// Distance between the surfaces of two capsules; negative where they overlap.
fn capsule_distance(a: &Capsule, b: &Capsule) -> f32 {
    let (_, _, seg) = closest_segment_points(a.a, a.b, b.a, b.b);
    seg - a.radius - b.radius
}

fn capsule_penetration(a: &Capsule, b: &Capsule) -> Option<Contact> {
    let (c1, c2, seg) = closest_segment_points(a.a, a.b, b.a, b.b);
    let reach = a.radius + b.radius;
    if !touches(sc(seg), sc(reach)) {
        return None;
    }
    let delta = c2 - c1;
    let len = delta.length();
    let normal = if has_direction(sc(len)) { delta / len } else { Vec3::X };
    let surface_a = c1 + normal * a.radius;
    let surface_b = c2 - normal * b.radius;
    Some(Contact {
        normal: from_vec3(normal),
        depth: sc(reach - seg),
        point: from_vec3((surface_a + surface_b) * 0.5),
    })
}

fn bone_capsule(pose: &Pose, skeleton: &Skeleton, bone: usize, radius: f32) -> Option<Capsule> {
    let child = first_child(skeleton, bone);
    let a = pose_head(pose, skeleton, bone);
    let b = child.map_or(a, |c| pose_head(pose, skeleton, c));
    has_capsule(child, sc((b - a).length())).then_some(Capsule { a, b, radius })
}

/// One capsule per bone, from its head to that of its first child.
fn bone_capsules(pose: &Pose, skeleton: &Skeleton, radius: f32) -> Vec<Option<Capsule>> {
    (0..skeleton.len()).map(|i| bone_capsule(pose, skeleton, i, radius)).collect()
}

/// The tested pairs of bones, and what each test finds.
fn pair_contacts(
    pose: &Pose,
    skeleton: &Skeleton,
    radius: f32,
) -> (Vec<(usize, usize)>, Vec<Option<Contact>>) {
    let capsules = bone_capsules(pose, skeleton, radius);
    let present: Vec<bool> = capsules.iter().map(|c| c.is_some()).collect();
    let pairs = collision_pairs(skeleton, &present);
    let contacts = pairs
        .iter()
        .map(|&(i, j)| capsule_penetration(capsules[i].as_ref()?, capsules[j].as_ref()?))
        .collect();
    (pairs, contacts)
}

/// The bones that go into each other, but for parents and their children.
fn self_collisions(
    pose: &Pose,
    skeleton: &Skeleton,
    radius: f32,
) -> Vec<(usize, usize, Contact)> {
    let (pairs, contacts) = pair_contacts(pose, skeleton, radius);
    collision::self_collisions(&pairs, &contacts)
}

fn is_self_colliding(pose: &Pose, skeleton: &Skeleton, radius: f32) -> bool {
    collision::is_self_colliding(&pair_contacts(pose, skeleton, radius).1)
}

/// What each bone of the chain makes of each obstacle, bone after bone.
fn chain_contacts(
    pose: &Pose,
    skeleton: &Skeleton,
    chain: &[usize],
    radius: f32,
    obstacles: &[Capsule],
) -> Vec<Option<Contact>> {
    chain
        .iter()
        .flat_map(|&bone| {
            let capsule = bone_capsule(pose, skeleton, bone, radius);
            obstacles.iter().map(move |o| capsule_penetration(&capsule?, o))
        })
        .collect()
}

fn depths(contacts: &[Option<Contact>]) -> Vec<Option<Scalar>> {
    contacts.iter().map(|c| c.map(|c| c.depth)).collect()
}

/// Rotate the joints of `chain` until its bones are out of the obstacles.
/// Returns how many contacts are left.
fn avoid_obstacles(
    pose: &mut Pose,
    skeleton: &Skeleton,
    chain: &Vec<usize>,
    radius: f32,
    obstacles: &[Capsule],
    limits: Option<&Vec<Option<JointLimit>>>,
    params: &AvoidParams,
) -> usize {
    if chain.is_empty() || obstacles.is_empty() {
        return 0;
    }
    assert!(chain.iter().all(|&b| b < skeleton.len()), "chain bone out of range");
    let mut done = 0;
    loop {
        let contacts = chain_contacts(pose, skeleton, chain, radius, obstacles);
        let (count, deepest) = count_penetrations(&depths(&contacts), params.margin);
        let Some(link) = params.next_push(done, deepest, obstacles.len()) else { return count };
        let Some(contact) = deepest.and_then(|d| contacts[d]) else { return count };

        let err = -vec3(contact.normal) * (num(contact.depth) + num(params.margin));
        let columns: Vec<[Vec3; 3]> = chain[..=link]
            .iter()
            .map(|&j| columns_at(pose_head(pose, skeleton, j), vec3(contact.point)))
            .collect();
        let weights = vec![Vec3::ONE; columns.len()];
        let push = damped_matrix(&columns, &weights, 0.25).inverse() * err;
        for (step, cols) in pass_steps(skeleton, chain, limits, link + 1).iter().zip(&columns) {
            let turn = Vec3::new(cols[0].dot(push), cols[1].dot(push), cols[2].dot(push));
            let dq = Quat::from_scaled_axis(num(params.step) * turn);
            apply_step(pose, skeleton, step, dq, limits);
        }
        done += 1;
    }
}

/// One frame: a rotation per bone, and its swing, twist and swing angles.
struct Sample {
    rotations: Vec<Quat>,
    angles: Vec<Vec3>,
}

/// Gathers the frames of clips and turns them into a prior.
struct MotionPriorBuilder {
    num_bones: usize,
    twist_axis: Vec<Vec3>,
    samples: Vec<Sample>,
    /// Samples with a goal, and the cells of their goals.
    with_goal: Vec<usize>,
    cells: Vec<u32>,
}

impl MotionPriorBuilder {
    fn new(num_bones: usize) -> Self {
        Self {
            num_bones,
            twist_axis: vec![Vec3::Y; num_bones],
            samples: Vec::new(),
            with_goal: Vec::new(),
            cells: Vec::new(),
        }
    }

    /// Set the axis that the twist of `bone` is measured about.
    fn set_twist_axis(&mut self, bone: usize, axis: Vec3) {
        if bone < self.num_bones {
            self.twist_axis[bone] = axis.normalize_or_zero();
        }
    }

    fn observe(&mut self, frame: &Frame) {
        let rotations: Vec<Quat> =
            frame.local_rotations.iter().take(self.num_bones).map(|q| quat(*q)).collect();
        let angles = rotations
            .iter()
            .zip(&self.twist_axis)
            .map(|(&rot, &axis)| {
                let (swing, twist) = swing_twist(rot, axis);
                let (su, sv) = swing_components(swing, axis);
                Vec3::new(su, signed_angle_about(twist, axis), sv)
            })
            .collect();
        self.samples.push(Sample { rotations, angles });
    }

    fn add_clip(&mut self, clip: &Clip) {
        for frame in &clip.frames {
            self.observe(frame);
        }
    }

    /// Add a clip and note for each frame where the head of `effector_bone` is
    /// as seen from the root.
    fn add_clip_with_goal(&mut self, clip: &Clip, skeleton: &Skeleton, effector_bone: usize) {
        let root = skeleton.roots().first().copied().unwrap_or(0);
        for frame in &clip.frames {
            let goal = frame_goal(frame, skeleton, root, effector_bone);
            self.with_goal.push(self.samples.len());
            self.cells.push(goal_cell(&goal));
            self.observe(frame);
        }
    }

    fn stats(&self, cell: u32, frames: &Vec<usize>) -> BucketStats {
        assert!(u32::try_from(frames.len()).is_ok(), "too many frames");
        let lengths: Vec<usize> = self.samples.iter().map(|s| s.rotations.len()).collect();
        let counts = sample_counts(&lengths, frames, self.num_bones);
        let moments: Vec<(Quat, Vec3)> =
            (0..self.num_bones).map(|bone| self.moments(bone, frames)).collect();
        let max_var = moments.iter().map(|(_, v)| v.max_element()).fold(0.0_f32, f32::max);
        let biases = moments
            .iter()
            .map(|&(mean, variance)| JointBias {
                axis_weight: from_vec3(if has_spread(sc(max_var)) {
                    Vec3::ONE + variance / max_var
                } else {
                    Vec3::ONE
                }),
                preferred: from_quat(mean),
            })
            .collect();
        BucketStats { cell, counts, biases }
    }

    /// Mean rotation of a bone over some frames, and the variance of its angles.
    fn moments(&self, bone: usize, frames: &[usize]) -> (Quat, Vec3) {
        let mut mean = Quat::IDENTITY;
        let (mut sum, mut sum_sq) = (Vec3::ZERO, Vec3::ZERO);
        let mut n = 0.0_f32;
        for &f in frames {
            let Some(&rot) = self.samples[f].rotations.get(bone) else { continue };
            mean = if n == 0.0 {
                rot.normalize()
            } else {
                let aligned = if mean.dot(rot) < 0.0 { -rot } else { rot };
                (mean + (aligned - mean) * (1.0 / (n + 1.0))).normalize()
            };
            let angles = self.samples[f].angles[bone];
            sum += angles;
            sum_sq += angles * angles;
            n += 1.0;
        }
        let variance = if n < 2.0 {
            Vec3::ZERO
        } else {
            let m = sum / n;
            (sum_sq / n - m * m).max(Vec3::ZERO)
        };
        (mean, variance)
    }

    fn build(self) -> MotionPrior {
        let all: Vec<usize> = (0..self.samples.len()).collect();
        let global = self.stats(FALLBACK_CELL, &all);
        let buckets: Vec<BucketStats> = group_frames(&self.cells)
            .iter()
            .map(|group| {
                let frames = group.frames.iter().map(|&k| self.with_goal[k]).collect();
                self.stats(group.cell, &frames)
            })
            .collect();
        build_prior(&global, &buckets)
    }
}

/// The goal of a frame: the head of the effector as seen from the root bone.
fn frame_goal(frame: &Frame, skeleton: &Skeleton, root: usize, effector: usize) -> GoalDescriptor {
    let mut pose = Pose::from_bind(skeleton);
    for (bone, rot) in frame.local_rotations.iter().enumerate().take(pose.local.len()) {
        let translation = mat4(&skeleton.bones[bone].local_bind).w_axis.truncate();
        pose.local[bone] = from_mat4(Mat4::from_rotation_translation(quat(*rot), translation));
    }
    let head = pose_head(&pose, skeleton, effector);
    let target = pose_global(&pose, skeleton, root).inverse().transform_point3(head);
    GoalDescriptor {
        target_local: from_vec3(target),
        target_length: sc(target.length()),
        approach_local: from_vec3(target.normalize_or_zero()),
        action_tag: None,
    }
}

fn near(a: f32, b: f32, epsilon: f32) -> bool {
    (a - b).abs() <= epsilon
}

fn same_rotation(a: Quat, b: Quat, epsilon: f32) -> bool {
    a.abs_diff_eq(b, epsilon) || a.abs_diff_eq(-b, epsilon)
}

fn moved(x: f32, y: f32, z: f32) -> Matrix {
    from_mat4(Mat4::from_translation(Vec3::new(x, y, z)))
}

// ── key frames and clips ────────────────────────────────────────────────────

fn vec3_keys(keys: &[(f32, Vec3)]) -> Vec<(Scalar, [Scalar; 3])> {
    keys.iter().map(|&(t, v)| (sc(t), from_vec3(v))).collect()
}

fn quat_keys(keys: &[(f32, Quat)]) -> Vec<(Scalar, [Scalar; 4])> {
    keys.iter().map(|&(t, q)| (sc(t), from_quat(q))).collect()
}

#[test]
fn sample_vec3_interpolates_and_clamps() {
    let keys = vec3_keys(&[(0.0, Vec3::ZERO), (1.0, Vec3::new(2.0, 0.0, 0.0))]);
    assert_eq!(sample_vec3(&keys, -1.0), Some(Vec3::ZERO));
    assert_eq!(sample_vec3(&keys, 0.5), Some(Vec3::new(1.0, 0.0, 0.0)));
    assert_eq!(sample_vec3(&keys, 5.0), Some(Vec3::new(2.0, 0.0, 0.0)));
    assert_eq!(sample_vec3(&[], 0.0), None);
}

#[test]
fn quat_slerp_halfway() {
    let quarter = Quat::from_rotation_z(std::f32::consts::FRAC_PI_2);
    let keys = quat_keys(&[(0.0, Quat::IDENTITY), (1.0, quarter)]);
    let mid = sample_quat(&keys, 0.5).unwrap();
    assert!(same_rotation(mid, Quat::from_rotation_z(std::f32::consts::FRAC_PI_4), 1e-4));
}

#[test]
fn sample_moves_bone() {
    let mut sk = Skeleton::new();
    sk.add(Bone::root("root"));
    let mut clip = AnimationClip::new("slide");
    let mut tr = BoneTrack::new(0);
    tr.translation = vec3_keys(&[(0.0, Vec3::ZERO), (1.0, Vec3::new(0.0, 3.0, 0.0))]);
    clip.tracks.push(tr);
    let p0 = sample_pose(&clip, &sk, 0.0);
    assert_eq!(pose_head(&p0, &sk, 0), Vec3::ZERO);
    let p1 = sample_pose(&clip, &sk, 1.0);
    assert_eq!(pose_head(&p1, &sk, 0), Vec3::new(0.0, 3.0, 0.0));
    let ph = sample_pose(&clip, &sk, 0.5);
    assert!((pose_head(&ph, &sk, 0) - Vec3::new(0.0, 1.5, 0.0)).length() < 1e-5);
}

#[test]
fn unanimated_bone_keeps_bind() {
    let mut sk = Skeleton::new();
    let r = sk.add(Bone::root("root"));
    sk.add(Bone::new("c", Some(r), moved(1.0, 0.0, 0.0)));
    let mut clip = AnimationClip::new("a");
    let mut tr = BoneTrack::new(0);
    tr.translation = vec3_keys(&[(0.0, Vec3::ZERO), (1.0, Vec3::ZERO)]);
    clip.tracks.push(tr);
    let pose = sample_pose(&clip, &sk, 1.0);
    assert_eq!(pose.local[1], sk.bones[1].local_bind);
}

fn two_bone_skeleton() -> Skeleton {
    let mut sk = Skeleton::new();
    let r = sk.add(Bone::root("root"));
    sk.add(Bone::new("child", Some(r), moved(0.0, 1.0, 0.0)));
    sk
}

#[test]
fn from_animation_frame_count_and_rotation_roundtrip() {
    let sk = two_bone_skeleton();
    let turned = Quat::from_rotation_z(std::f32::consts::FRAC_PI_2);
    let mut clip = AnimationClip::new("spin");
    let mut tr = BoneTrack::new(1);
    tr.rotation = quat_keys(&[(0.0, Quat::IDENTITY), (1.0, turned)]);
    clip.tracks.push(tr);

    let baked = clip_from_animation(&clip, &sk, 10.0);
    assert_eq!(baked.len(), 11);
    assert_eq!(num(baked.frame_rate), 10.0);
    assert!(near(clip_duration(&baked), 1.0, 1e-5));
    let last = baked.frames.last().unwrap();
    assert!(same_rotation(quat(last.local_rotations[1]), turned, 1e-4));
    let first = baked.frames.first().unwrap();
    assert!(quat(first.local_rotations[1]).abs_diff_eq(Quat::IDENTITY, 1e-4));
}

#[test]
fn empty_animation_bakes_single_frame() {
    let sk = two_bone_skeleton();
    let clip = AnimationClip::new("static");
    let baked = clip_from_animation(&clip, &sk, 30.0);
    assert_eq!(baked.len(), 1);
    assert!(!baked.is_empty());
    assert!(near(clip_duration(&baked), 0.0, f32::EPSILON));
}

#[test]
fn inverse_bind_is_inverse_of_global() {
    let mut s = Skeleton::new();
    let r = s.add(Bone::root("root"));
    let c = s.add(Bone::new("child", Some(r), moved(2.0, 0.0, 0.0)));
    s.add(Bone::new("grand", Some(c), moved(3.0, 0.0, 0.0)));
    for i in 0..s.len() {
        let prod = inverse_bind(&s, i) * global_bind(&s, i);
        assert!(prod.abs_diff_eq(Mat4::IDENTITY, 1e-5));
    }
    for m in skinning_matrices(&Pose::from_bind(&s), &s) {
        assert!(m.abs_diff_eq(Mat4::IDENTITY, 1e-5));
    }
}

// ── limits ──────────────────────────────────────────────────────────────────

fn hinge(axis: Vec3, min: f32, max: f32) -> JointLimit {
    JointLimit::Hinge { axis: from_vec3(axis), min: sc(min), max: sc(max) }
}

#[test]
fn hinge_clamps_rotation_beyond_max() {
    let clamped = clamp(Quat::from_rotation_z(2.0), &hinge(Vec3::Z, -0.5, 1.0));
    assert!(near(signed_angle_about(clamped, Vec3::Z), 1.0, 1e-5));
}

#[test]
fn hinge_leaves_in_range_rotation_unchanged() {
    let rot = Quat::from_rotation_z(0.7);
    let clamped = clamp(rot, &hinge(Vec3::Z, -2.0, 2.0));
    assert!(same_rotation(clamped, rot, 1e-5), "in-range rotation should be unchanged");
}

fn ball() -> JointLimit {
    JointLimit::SwingTwist {
        twist_axis: from_vec3(Vec3::Y),
        twist: (sc(-0.3), sc(0.3)),
        swing: (sc(1.0), sc(1.0)),
    }
}

#[test]
fn swing_twist_clamps_twist() {
    let clamped = clamp(Quat::from_rotation_y(1.2), &ball());
    assert!(near(signed_angle_about(clamped, Vec3::Y), 0.3, 1e-4));
}

fn cone(u: f32, v: f32) -> JointLimit {
    JointLimit::SwingTwist {
        twist_axis: from_vec3(Vec3::Y),
        twist: (sc(-1.0), sc(1.0)),
        swing: (sc(u), sc(v)),
    }
}

fn turn(twist: f32, swing_u: f32, swing_v: f32) -> JointAngles {
    JointAngles { twist: sc(twist), swing_u: sc(swing_u), swing_v: sc(swing_v) }
}

#[test]
fn limiting_twice_changes_nothing_more() {
    let rot = Quat::from_rotation_y(1.2) * Quat::from_rotation_x(2.0);
    let once = clamp(rot, &ball());
    assert!(same_rotation(clamp(once, &ball()), once, 1e-3));
    let reach = SwingReach { measure: sc(4.25), u: sc(0.97), v: sc(-0.24) };
    let kept = limit_angles(&ball(), turn(-4.0, 2.0, -0.5), reach);
    assert_eq!(kept, turn(-0.3, 0.97, -0.24));
    let again = SwingReach { measure: sc(0.9985), u: sc(9.0), v: sc(9.0) };
    assert_eq!(limit_angles(&ball(), kept, again), kept);
}

#[test]
fn swings_stay_inside_the_elliptical_cone() {
    let limit = cone(0.5, 0.5);
    let held = clamp(Quat::from_scaled_axis(Vec3::new(1.0, 0.0, 1.0)), &limit);
    let (axis, angle) = held.to_axis_angle();
    assert!(near(angle, 0.5, 1e-4), "angle {angle}");
    assert!((axis - Vec3::new(1.0, 0.0, 1.0).normalize()).length() < 1e-3);

    let wide = cone(1.0, 0.25);
    let held = clamp(Quat::from_scaled_axis(Vec3::new(0.9, 0.0, -0.9)), &wide);
    let (su, sv) = swing_components(swing_twist(held, Vec3::Y).0, Vec3::Y);
    assert!(near(su.powi(2) + (sv / 0.25).powi(2), 1.0, 1e-3));
    assert!(near(su.abs(), sv.abs(), 1e-4));

    let small = Quat::from_scaled_axis(Vec3::new(0.3, 0.0, 0.3));
    assert!(same_rotation(clamp(small, &limit), small, 1e-5));
}

#[test]
fn the_corner_of_the_half_angles_is_outside_the_cone() {
    let reach = SwingReach { measure: sc(2.0), u: sc(0.35), v: sc(-0.35) };
    let kept = limit_angles(&cone(0.5, 0.5), turn(0.0, 0.5, -0.5), reach);
    assert_eq!(kept, turn(0.0, 0.35, -0.35));
    let edge = SwingReach { measure: sc(1.0), u: sc(9.0), v: sc(9.0) };
    assert_eq!(limit_angles(&cone(0.5, 0.5), turn(0.0, 0.5, 0.0), edge), turn(0.0, 0.5, 0.0));
}

#[test]
fn swings_fall_onto_a_flat_cone() {
    let reach = SwingReach { measure: sc(f32::INFINITY), u: sc(0.0), v: sc(f32::NAN) };
    let kept = limit_angles(&cone(0.0, 0.5), turn(2.0, 1.0, 0.25), reach);
    assert_eq!(kept, turn(1.0, 0.0, 0.25));
    assert_eq!(limit_angles(&cone(0.5, 0.0), turn(0.0, -2.0, 3.0), reach), turn(0.0, -0.5, 0.0));
    let held = clamp(Quat::from_scaled_axis(Vec3::new(0.2, 0.0, 0.2)), &cone(0.0, 0.0));
    assert!(same_rotation(held, Quat::IDENTITY, 1e-6));
}

#[test]
fn angles_go_the_short_way_round() {
    let rot = Quat::from_rotation_z(0.7);
    assert!(near(signed_angle_about(rot, Vec3::Z), 0.7, 1e-5));
    assert!(near(signed_angle_about(-rot, Vec3::Z), 0.7, 1e-5));
    assert!(same_rotation(clamp(-rot, &hinge(Vec3::Z, -1.0, 1.0)), rot, 1e-5));
}

#[test]
fn swing_twist_recomposes() {
    let rot = Quat::from_rotation_y(0.7) * Quat::from_rotation_x(0.3);
    let (swing, twist) = swing_twist(rot, Vec3::Y);
    assert!(same_rotation(swing * twist, rot, 1e-4), "swing and twist did not recompose {rot:?}");
}

#[test]
fn g1_table_has_29_entries_and_asymmetric_knee() {
    let table = g1_29dof_limits();
    assert_eq!(table.len(), 29);
    let (name, knee) = &table[3];
    assert_eq!(*name, "left_knee_joint");
    match knee {
        JointLimit::Hinge { min, max, .. } => {
            assert!(near(num(*min), -0.087267, 1e-6));
            assert!(near(num(*max), 2.8798, 1e-6));
        }
        _ => panic!("knee should be a hinge"),
    }
}

#[test]
fn g1_table_lists_every_joint() {
    let (x, y, z) = (Vec3::X, Vec3::Y, Vec3::Z);
    let expected = [
        ("left_hip_pitch_joint", y, -2.5307, 2.8798),
        ("left_hip_roll_joint", x, -0.5236, 2.9671),
        ("left_hip_yaw_joint", z, -2.7576, 2.7576),
        ("left_knee_joint", y, -0.087267, 2.8798),
        ("left_ankle_pitch_joint", y, -0.87267, 0.5236),
        ("left_ankle_roll_joint", x, -0.2618, 0.2618),
        ("right_hip_pitch_joint", y, -2.5307, 2.8798),
        ("right_hip_roll_joint", x, -2.9671, 0.5236),
        ("right_hip_yaw_joint", z, -2.7576, 2.7576),
        ("right_knee_joint", y, -0.087267, 2.8798),
        ("right_ankle_pitch_joint", y, -0.87267, 0.5236),
        ("right_ankle_roll_joint", x, -0.2618, 0.2618),
        ("waist_yaw_joint", z, -2.618, 2.618),
        ("waist_roll_joint", x, -0.52, 0.52),
        ("waist_pitch_joint", y, -0.52, 0.52),
        ("left_shoulder_pitch_joint", y, -3.0892, 2.6704),
        ("left_shoulder_roll_joint", x, -1.5882, 2.2515),
        ("left_shoulder_yaw_joint", z, -2.618, 2.618),
        ("left_elbow_joint", y, -1.0472, 2.0944),
        ("left_wrist_roll_joint", x, -1.9722, 1.9722),
        ("left_wrist_pitch_joint", y, -1.6144, 1.6144),
        ("left_wrist_yaw_joint", z, -1.6144, 1.6144),
        ("right_shoulder_pitch_joint", y, -3.0892, 2.6704),
        ("right_shoulder_roll_joint", x, -2.2515, 1.5882),
        ("right_shoulder_yaw_joint", z, -2.618, 2.618),
        ("right_elbow_joint", y, -1.0472, 2.0944),
        ("right_wrist_roll_joint", x, -1.9722, 1.9722),
        ("right_wrist_pitch_joint", y, -1.6144, 1.6144),
        ("right_wrist_yaw_joint", z, -1.6144, 1.6144),
    ];
    let table = g1_29dof_limits();
    assert_eq!(table.len(), expected.len());
    for ((name, limit), (joint, axis, min, max)) in table.iter().zip(expected) {
        assert_eq!(*name, joint);
        assert_eq!(*limit, hinge(axis, min, max));
    }
}

#[test]
fn g1_elbow_limit_clamps_via_public_table() {
    let table = g1_29dof_limits();
    assert_eq!(table.len(), 29);
    let elbow = table
        .iter()
        .find(|(n, _)| *n == "left_elbow_joint")
        .map(|(_, l)| l.clone())
        .expect("left_elbow_joint should be in the G1 table");
    let (axis, max) = match &elbow {
        JointLimit::Hinge { axis, max, .. } => (vec3(*axis), num(*max)),
        _ => panic!("the G1 elbow is a hinge"),
    };
    assert!(axis.abs_diff_eq(Vec3::Y, 1e-6), "G1 elbow hinges about Y");
    let clamped = clamp(Quat::from_rotation_y(3.0), &elbow);
    assert!(near(clamped.to_scaled_axis().y, max, 1e-4));
}

// ── reaching ────────────────────────────────────────────────────────────────

fn straight() -> Vec<Vec3> {
    vec![Vec3::ZERO, Vec3::new(1.0, 0.0, 0.0), Vec3::new(2.0, 0.0, 0.0)]
}

#[test]
fn fabrik_reaches_target_in_range() {
    let target = Vec3::new(1.0, 1.0, 0.0);
    let solved = fabrik(&straight(), target, 32, 1e-4);
    assert!((solved[2] - target).length() < 1e-3);
    assert!(near(solved[0].length(), 0.0, 1e-5));
    assert!(near((solved[1] - solved[0]).length(), 1.0, 1e-3));
    assert!(near((solved[2] - solved[1]).length(), 1.0, 1e-3));
}

#[test]
fn fabrik_out_of_reach_extends_straight() {
    let solved = fabrik(&straight(), Vec3::new(10.0, 0.0, 0.0), 16, 1e-4);
    assert!(near(solved[2].x, 2.0, 1e-4));
    assert!(near(solved[2].y, 0.0, 1e-4));
}

#[test]
fn single_joints_stay() {
    let alone = vec![Vec3::ONE];
    assert_eq!(fabrik(&alone, Vec3::ZERO, 8, 1e-4), alone);
    assert!(fabrik(&[], Vec3::ZERO, 8, 1e-4).is_empty());
}

#[test]
fn sweeps_run_at_least_once_and_stop_on_the_target() {
    assert!(sweeps_on(0, 0, sc(0.0), sc(1.0)));
    assert!(!sweeps_on(1, 0, sc(5.0), sc(1.0)));
    assert!(sweeps_on(1, 2, sc(5.0), sc(1.0)));
    assert!(!sweeps_on(1, 2, sc(0.5), sc(1.0)));
}

#[test]
fn two_bone_reaches_and_preserves_lengths() {
    let target = Vec3::new(1.0, 1.0, 0.0);
    let (joint, end) = two_bone(Vec3::ZERO, 1.0, 1.0, target, Vec3::new(0.0, 1.0, 0.0));
    assert!(near(joint.length(), 1.0, 1e-4));
    assert!(near((end - joint).length(), 1.0, 1e-4));
    assert!((end - target).length() < 1e-3);
}

/// A chain of `n` joints a unit apart along X, and an effector past the last.
fn planar_chain(n: usize) -> (Skeleton, Vec<usize>, usize) {
    let mut sk = Skeleton::new();
    let mut prev = sk.add(Bone::root("j0"));
    let mut chain = vec![prev];
    for i in 1..n {
        prev = sk.add(Bone::new(&format!("j{i}"), Some(prev), moved(1.0, 0.0, 0.0)));
        chain.push(prev);
    }
    let effector = sk.add(Bone::new("effector", Some(prev), moved(1.0, 0.0, 0.0)));
    (sk, chain, effector)
}

fn reach(
    sk: &Skeleton,
    chain: &Vec<usize>,
    effector: usize,
    target: Vec3,
    prior: Option<&MotionPrior>,
    limits: Option<&Vec<Option<JointLimit>>>,
    params: &DlsParams,
) -> (Pose, f32) {
    let mut pose = Pose::from_bind(sk);
    let left = solve_dls(&mut pose, sk, chain, effector, target, prior, limits, params);
    (pose, left)
}

#[test]
fn dls_converges_to_reachable_target() {
    let (sk, chain, effector) = planar_chain(3);
    let target = Vec3::new(1.5, 1.0, 0.0);
    let (_, dist) = reach(&sk, &chain, effector, target, None, None, &DlsParams::default());
    assert!(dist < 1e-2, "expected convergence, got distance {dist}");
}

#[test]
fn dls_unreachable_is_stable_and_extends() {
    let (sk, chain, effector) = planar_chain(3);
    let start_x = pose_head(&Pose::from_bind(&sk), &sk, effector).x;
    let target = Vec3::new(100.0, 0.0, 0.0);
    let (pose, dist) = reach(&sk, &chain, effector, target, None, None, &DlsParams::default());
    assert!(dist.is_finite(), "distance must be finite, got {dist}");
    let end = pose_head(&pose, &sk, effector);
    assert!(end.is_finite(), "effector must be finite, got {end:?}");
    assert!(end.x >= start_x, "effector x {} should not shrink from {}", end.x, start_x);
}

fn spread_clip(num_bones: usize, joint: usize, axis: Vec3) -> Clip {
    let frames = (0..9)
        .map(|i| {
            let mut rots = vec![Quat::IDENTITY; num_bones];
            rots[joint] = Quat::from_axis_angle(axis, (i as f32 - 4.0) * 0.3);
            frame(&rots)
        })
        .collect();
    Clip { name: "spread".to_string(), frame_rate: sc(30.0), frames }
}

fn frame(rotations: &[Quat]) -> Frame {
    Frame {
        root: from_mat4(Mat4::IDENTITY),
        local_rotations: rotations.iter().map(|q| from_quat(*q)).collect(),
    }
}

#[test]
fn dls_anisotropy_steers_solution() {
    let (sk, chain, effector) = planar_chain(3);
    let target = Vec3::new(1.2, 1.2, 0.0);
    let params = DlsParams { posture_gain: sc(0.0), ..DlsParams::default() };
    let mid = chain[1];
    let bend = |pose: &Pose| rotation_of(mat4(&pose.local[mid])).to_scaled_axis().z.abs();

    let (uniform, _) = reach(&sk, &chain, effector, target, None, None, &params);
    let mut builder = MotionPriorBuilder::new(sk.len());
    builder.add_clip(&spread_clip(sk.len(), mid, Vec3::Z));
    let prior = builder.build();
    let (biased, _) = reach(&sk, &chain, effector, target, Some(&prior), None, &params);
    assert!(
        bend(&biased) > bend(&uniform) + 1e-3,
        "high-weight middle joint should rotate more: biased {} vs uniform {}",
        bend(&biased),
        bend(&uniform)
    );
}

#[test]
fn dls_respects_hinge_limit() {
    let (sk, chain, effector) = planar_chain(3);
    let target = Vec3::new(1.0, 1.5, 0.0);
    let (lo, hi) = (-0.2_f32, 0.2_f32);
    let limits = vec![None, Some(hinge(Vec3::Z, lo, hi)), None];
    let params = DlsParams::default();
    let (pose, _) = reach(&sk, &chain, effector, target, None, Some(&limits), &params);
    let mid = chain[1];
    let bind_rot = rotation_of(mat4(&sk.bones[mid].local_bind));
    let rel = bind_rot.inverse() * rotation_of(mat4(&pose.local[mid]));
    let angle = signed_angle_about(rel, Vec3::Z);
    assert!(angle >= lo - 1e-3 && angle <= hi + 1e-3, "hinge angle {angle} out of [{lo}, {hi}]");
}

#[test]
fn aim_chain_points_bone_at_target() {
    let mut sk = Skeleton::new();
    let r = sk.add(Bone::root("root"));
    let m = sk.add(Bone::new("mid", Some(r), moved(0.0, 1.0, 0.0)));
    sk.add(Bone::new("tip", Some(m), moved(0.0, 1.0, 0.0)));
    let mut pose = Pose::from_bind(&sk);
    aim_chain(&mut pose, &sk, &[r, m], &straight());
    let mid_head = pose_head(&pose, &sk, m);
    assert!(mid_head.x > 0.7, "mid head x = {}", mid_head.x);
}

#[test]
fn aimed_bones_meet_the_solved_positions() {
    let mut sk = Skeleton::new();
    let turned = Mat4::from_quat(Quat::from_rotation_x(0.8));
    let r = sk.add(Bone::new("root", None, from_mat4(turned)));
    let m = sk.add(Bone::new("mid", Some(r), moved(0.0, 1.0, 0.0)));
    let e = sk.add(Bone::new("end", Some(m), moved(0.0, 1.0, 0.0)));
    let solved = [Vec3::ZERO, Vec3::new(0.6, 0.0, 0.8), Vec3::new(0.6, 1.0, 0.8)];
    let mut pose = Pose::from_bind(&sk);
    aim_chain(&mut pose, &sk, &[r, m, e], &[solved[0], solved[1], solved[2], Vec3::Y]);
    assert!((pose_head(&pose, &sk, r) - solved[0]).length() < 1e-5);
    assert!((pose_head(&pose, &sk, m) - solved[1]).length() < 1e-4);
    assert!((pose_head(&pose, &sk, e) - solved[2]).length() < 1e-4);
}

#[test]
fn aiming_needs_directions() {
    assert!(can_aim(sc(1.0), sc(1.0)));
    assert!(!can_aim(sc(0.0), sc(1.0)));
    assert!(!can_aim(sc(1.0), sc(1e-13)));
    assert!(bends_to_pole(sc(1e-9)));
    assert!(!bends_to_pole(sc(1e-11)));
    assert!(has_twist(sc(1.0)) && !has_twist(sc(1e-13)));
    assert!(has_spread(sc(1e-8)) && !has_spread(sc(1e-10)));
}

#[test]
fn passes_name_parents_and_limits() {
    let (sk, chain, _) = planar_chain(3);
    let limits = vec![None, Some(hinge(Vec3::Z, -0.1, 0.1))];
    let steps = pass_steps(&sk, &chain, Some(&limits), 3);
    let seen: Vec<_> = steps.iter().map(|s| (s.slot, s.bone, s.parent, s.limited)).collect();
    assert_eq!(seen, vec![(0, 0, None, false), (1, 1, Some(0), true), (2, 2, Some(1), false)]);
    assert_eq!(pass_steps(&sk, &chain, None, 2).len(), 2);
    assert!(pass_steps(&sk, &chain, None, 2).iter().all(|s| !s.limited));
}

#[test]
fn solve_chain_reaches_reachable_target() {
    let (parents, binds, chain, effector) = chain_arrays(3);
    let request = read_request(&parents, &binds, &chain, effector).unwrap();
    let target = Vec3::new(1.5, 1.0, 0.0);
    let params = DlsParams { iterations: effective_iterations(64), ..DlsParams::default() };
    let sk = &request.skeleton;
    let (pose, dist) = reach(sk, &request.chain, request.effector, target, None, None, &params);
    assert!(dist < 1e-2, "effector should reach target, dist = {dist}");
    for m in &pose.local {
        let q = rotation_of(mat4(m));
        assert!(q.is_finite() && (q.length() - 1.0).abs() < 1e-3, "rotation must be unit");
    }
}

#[test]
fn solve_chain_with_hinge_limits_is_finite() {
    let (parents, binds, chain, effector) = chain_arrays(3);
    let request = read_request(&parents, &binds, &chain, effector).unwrap();
    let target = Vec3::new(1.0, 1.5, 0.0);
    let range = hinge_range(from_vec3(Vec3::Z), sc(0.2), sc(1.0)).unwrap();
    assert_eq!(range, (sc(-0.2), sc(0.2)));
    let limits = vec![Some(hinge(Vec3::Z, -0.2, 0.2)); 3];
    let params = DlsParams { iterations: effective_iterations(32), ..DlsParams::default() };
    let sk = &request.skeleton;
    let (pose, _) =
        reach(sk, &request.chain, request.effector, target, None, Some(&limits), &params);
    assert!(pose.local.iter().all(|m| rotation_of(mat4(m)).is_finite()));
}

/// A planar chain as flat arrays: parents, binds, chain, effector.
fn chain_arrays(n: usize) -> (Vec<u64>, Vec<Matrix>, Vec<u64>, u64) {
    let mut parents = vec![CRF_NO_PARENT];
    let mut binds = vec![from_mat4(Mat4::IDENTITY)];
    for i in 0..n as u64 {
        parents.push(i);
        binds.push(moved(1.0, 0.0, 0.0));
    }
    (parents, binds, (0..n as u64).collect(), n as u64)
}

// ── contacts ────────────────────────────────────────────────────────────────

#[test]
fn closest_points_crossing_perpendicular_segments() {
    let (c1, c2, dist) = closest_segment_points(
        Vec3::new(-1.0, 0.0, 0.0),
        Vec3::new(1.0, 0.0, 0.0),
        Vec3::new(0.0, -1.0, 0.0),
        Vec3::new(0.0, 1.0, 0.0),
    );
    assert!(near(dist, 0.0, 1e-5));
    assert!(near((c1 - c2).length(), 0.0, 1e-5));
    assert!(near(c1.x, 0.0, 1e-5));
    assert!(near(c2.y, 0.0, 1e-5));
}

#[test]
fn closest_points_parallel_offset_segments() {
    let (_, _, dist) = closest_segment_points(
        Vec3::new(0.0, 0.0, 0.0),
        Vec3::new(2.0, 0.0, 0.0),
        Vec3::new(0.0, 2.0, 0.0),
        Vec3::new(2.0, 2.0, 0.0),
    );
    assert!(near(dist, 2.0, 1e-5));
}

#[test]
fn closest_points_zero_length_segment_vs_segment() {
    let p = Vec3::new(1.0, 3.0, 0.0);
    let (c1, c2, dist) = closest_segment_points(p, p, Vec3::ZERO, Vec3::new(2.0, 0.0, 0.0));
    assert!(near(dist, 3.0, 1e-5));
    assert!(near(c1.x, 1.0, 1e-5));
    assert!(near(c2.x, 1.0, 1e-5));
    assert!(near(c2.y, 0.0, 1e-5));
}

#[test]
fn closest_points_stay_on_both_segments() {
    let (c1, c2, dist) = closest_segment_points(
        Vec3::ZERO,
        Vec3::new(1.0, 0.0, 0.0),
        Vec3::new(3.0, 1.0, 0.0),
        Vec3::new(3.0, 5.0, 0.0),
    );
    assert_eq!((c1, c2), (Vec3::new(1.0, 0.0, 0.0), Vec3::new(3.0, 1.0, 0.0)));
    assert!(near(dist, 5.0_f32.sqrt(), 1e-5));
    let (c1, c2, _) = closest_segment_points(
        Vec3::ZERO,
        Vec3::new(4.0, 0.0, 0.0),
        Vec3::new(1.0, 9.0, 0.0),
        Vec3::new(1.0, 2.0, 0.0),
    );
    assert_eq!((c1, c2), (Vec3::new(1.0, 0.0, 0.0), Vec3::new(1.0, 2.0, 0.0)));
    let q = Vec3::new(0.0, 2.0, 0.0);
    let (c1, c2, dist) = closest_segment_points(Vec3::ZERO, Vec3::ZERO, q, q);
    assert_eq!((c1, c2, dist), (Vec3::ZERO, q, 2.0));
}

fn bar(y: f32, radius: f32) -> Capsule {
    Capsule { a: Vec3::new(0.0, y, 0.0), b: Vec3::new(2.0, y, 0.0), radius }
}

#[test]
fn capsule_penetration_overlapping_parallel() {
    let c = capsule_penetration(&bar(0.0, 0.75), &bar(1.0, 0.75)).expect("should penetrate");
    assert!(near(num(c.depth), 0.5, 1e-5));
    let normal = vec3(c.normal);
    assert!(normal.y > 0.9, "normal should be roughly +Y, got {normal:?}");
}

#[test]
fn capsule_penetration_far_apart_is_none() {
    assert!(capsule_penetration(&bar(0.0, 0.25), &bar(5.0, 0.25)).is_none());
}

#[test]
fn touching_capsules_do_not_penetrate() {
    assert!(capsule_penetration(&bar(0.0, 0.5), &bar(1.0, 0.5)).is_none());
    assert!(!touches(sc(1.0), sc(1.0)));
    assert!(touches(sc(0.5), sc(1.0)));
    let same = capsule_penetration(&bar(0.0, 0.5), &bar(0.0, 0.5)).unwrap();
    assert_eq!(vec3(same.normal), Vec3::X);
}

#[test]
fn capsule_distance_overlap_is_negative() {
    assert!(near(capsule_distance(&bar(0.0, 0.75), &bar(1.0, 0.75)), -0.5, 1e-5));
}

fn overlapping_arms() -> Skeleton {
    let mut sk = Skeleton::new();
    let r = sk.add(Bone::root("root"));
    let a1 = sk.add(Bone::new("a1", Some(r), moved(1.0, 0.0, 0.0)));
    sk.add(Bone::new("a2", Some(a1), moved(1.0, 0.0, 0.0)));
    let b1 = sk.add(Bone::new("b1", Some(r), moved(1.0, 0.5, 0.0)));
    sk.add(Bone::new("b2", Some(b1), moved(1.0, 0.0, 0.0)));
    sk
}

#[test]
fn self_collisions_reports_nonadjacent_overlap_only() {
    let sk = overlapping_arms();
    let pose = Pose::from_bind(&sk);
    let pairs = self_collisions(&pose, &sk, 0.4);
    assert_eq!(pairs.len(), 1, "got {} pairs", pairs.len());
    assert_eq!((pairs[0].0, pairs[0].1), (1, 3));
    assert!(is_self_colliding(&pose, &sk, 0.4));
}

#[test]
fn self_collisions_excludes_adjacent_parent_child() {
    let mut sk = Skeleton::new();
    let r = sk.add(Bone::root("root"));
    let m = sk.add(Bone::new("mid", Some(r), moved(1.0, 0.0, 0.0)));
    sk.add(Bone::new("tip", Some(m), moved(1.0, 0.0, 0.0)));
    let pairs = self_collisions(&Pose::from_bind(&sk), &sk, 1.0);
    assert!(pairs.is_empty(), "adjacent parent/child must be excluded, got {pairs:?}");
}

#[test]
fn contacts_are_reported_in_the_order_of_their_pairs() {
    let pairs = vec![(0, 2), (0, 3), (1, 3)];
    let hit = |depth| Contact { normal: [sc(1.0); 3], depth: sc(depth), point: [sc(0.0); 3] };
    let contacts = vec![Some(hit(0.5)), None, Some(hit(0.25))];
    let found = collision::self_collisions(&pairs, &contacts);
    assert_eq!(found, vec![(0, 2, hit(0.5)), (1, 3, hit(0.25))]);
    assert!(collision::is_self_colliding(&contacts));
    assert!(!collision::is_self_colliding(&vec![None, None]));
    assert!(collision::self_collisions(&pairs, &vec![None; 3]).is_empty());
}

fn low_beam() -> Capsule {
    Capsule { a: Vec3::new(2.0, 0.25, -0.5), b: Vec3::new(2.0, 0.25, 0.5), radius: 0.4 }
}

#[test]
fn avoid_obstacles_pushes_chain_out() {
    let (sk, chain, _) = planar_chain(3);
    let mut pose = Pose::from_bind(&sk);
    let obstacles = [low_beam()];
    let contacts = chain_contacts(&pose, &sk, &chain, 0.3, &obstacles);
    let before = count_penetrations(&depths(&contacts), sc(0.0)).0;
    assert!(before > 0, "expected initial penetration, got {before}");
    let params = AvoidParams::default();
    let remaining = avoid_obstacles(&mut pose, &sk, &chain, 0.3, &obstacles, None, &params);
    assert_eq!(remaining, 0, "chain should end collision-free, {remaining} remain");
    for i in 0..sk.len() {
        assert!(pose_head(&pose, &sk, i).is_finite(), "bone {i} head must be finite");
    }
}

#[test]
fn straight_arm_resolves_against_obstacle() {
    let (sk, chain, _) = planar_chain(3);
    let mut pose = Pose::from_bind(&sk);
    let before = bone_capsules(&pose, &sk, 0.3)
        .iter()
        .flatten()
        .filter(|c| capsule_penetration(c, &low_beam()).is_some())
        .count();
    assert!(before > 0, "the straight arm should penetrate the obstacle, got {before}");
    let params = AvoidParams::default();
    let remaining = avoid_obstacles(&mut pose, &sk, &chain, 0.3, &[low_beam()], None, &params);
    assert_eq!(remaining, 0, "the arm should be pushed clear, {remaining} penetrations remain");
    for i in 0..sk.len() {
        assert!(pose_head(&pose, &sk, i).is_finite(), "bone {i} head must stay finite");
    }
}

#[test]
fn pushes_stop_when_nothing_is_deep_or_time_is_up() {
    let params = AvoidParams::default();
    assert_eq!(params.iterations, 12);
    assert_eq!(params.next_push(0, Some(7), 3), Some(2));
    assert_eq!(params.next_push(0, None, 3), None);
    assert_eq!(params.next_push(12, Some(7), 3), None);
}

// ── priors ──────────────────────────────────────────────────────────────────

fn goal_at(target: Vec3) -> GoalDescriptor {
    goal_of(target, Vec3::ZERO)
}

fn spin_clip() -> Clip {
    spread_clip(2, 1, Vec3::Y)
}

#[test]
fn builder_weights_high_variance_axis_higher() {
    let mut builder = MotionPriorBuilder::new(2);
    builder.add_clip(&spin_clip());
    let bias = builder.build().bias(1, &goal_at(Vec3::ZERO));
    let w = vec3(bias.axis_weight);
    assert!(w.y > w.x, "expected high-variance Y weight {} > static X weight {}", w.y, w.x);
}

#[test]
fn v1_built_prior_falls_back_to_global() {
    let mut builder = MotionPriorBuilder::new(2);
    builder.add_clip(&spin_clip());
    let prior = builder.build();
    assert_eq!(prior.num_cells(), 0);
    let w = vec3(prior.bias(1, &goal_at(Vec3::new(1.0, 0.0, 0.0))).axis_weight);
    assert!(w.y > w.x);
}

fn arm_skeleton(arm: f32) -> Skeleton {
    let mut sk = Skeleton::new();
    let r = sk.add(Bone::root("root"));
    let s = sk.add(Bone::new("shoulder", Some(r), from_mat4(Mat4::IDENTITY)));
    sk.add(Bone::new("effector", Some(s), moved(arm, 0.0, 0.0)));
    sk
}

fn posture_clip(posture: Quat) -> Clip {
    let frames = (0..6).map(|_| frame(&[Quat::IDENTITY, posture, Quat::IDENTITY])).collect();
    Clip { name: "c".to_string(), frame_rate: sc(30.0), frames }
}

#[test]
fn goal_conditioning_separates_postures_by_goal() {
    let sk = arm_skeleton(2.0);
    let posture_a = Quat::IDENTITY;
    let posture_b = Quat::from_rotation_z(std::f32::consts::FRAC_PI_2);
    let mut builder = MotionPriorBuilder::new(3);
    builder.add_clip_with_goal(&posture_clip(posture_a), &sk, 2);
    builder.add_clip_with_goal(&posture_clip(posture_b), &sk, 2);
    let prior = builder.build();
    assert!(prior.num_cells() >= 2, "expected two cells, got {}", prior.num_cells());

    let goal_x = goal_at(Vec3::new(2.0, 0.0, 0.0));
    let goal_y = goal_at(Vec3::new(0.0, 2.0, 0.0));
    assert_ne!(goal_cell(&goal_x), goal_cell(&goal_y));
    let bias_x = quat(prior.bias(1, &goal_x).preferred);
    let bias_y = quat(prior.bias(1, &goal_y).preferred);
    let d = |q: Quat, p: Quat| q.dot(p).abs();
    assert!(d(bias_x, posture_a) > d(bias_x, posture_b));
    assert!(d(bias_y, posture_b) > d(bias_y, posture_a));
    assert!(d(bias_x, bias_y) < 0.99, "cells should differ: {bias_x:?} vs {bias_y:?}");
}

#[test]
fn bake_prior_weights_animated_bone_higher() {
    let clips = vec![spin_clip()];
    let mut builder = MotionPriorBuilder::new(canonical_bone_count(&clips));
    builder.add_clip(&clips[0]);
    let prior = builder.build();
    assert_eq!(prior.len(), 2);
    let goal = goal_at(Vec3::ZERO);
    let still = vec3(prior.bias(0, &goal).axis_weight);
    let animated = vec3(prior.bias(1, &goal).axis_weight);
    assert!(animated.y > still.y, "animated {} should exceed static {}", animated.y, still.y);
}

#[test]
fn bake_prior_with_goals_forms_cells() {
    let sk = arm_skeleton(2.0);
    let turned = Quat::from_rotation_z(std::f32::consts::FRAC_PI_2);
    let clips = vec![posture_clip(Quat::IDENTITY), posture_clip(turned)];
    assert_eq!(goal_bone_count(&clips, sk.len()), 3);
    assert_eq!(goal_bone_count(&clips, 7), 7);
    let mut builder = MotionPriorBuilder::new(goal_bone_count(&clips, sk.len()));
    for clip in &clips {
        builder.add_clip_with_goal(clip, &sk, 2);
    }
    let prior = builder.build();
    assert!(prior.num_cells() >= 2, "expected two cells, got {}", prior.num_cells());
    assert!(!prior.is_empty(), "global fallback must still be populated");
}

#[test]
fn frames_group_by_cell_in_order() {
    let groups = group_frames(&vec![4, 1, 4, 4, 1]);
    let seen: Vec<(u32, Vec<usize>)> = groups.iter().map(|g| (g.cell, g.frames.clone())).collect();
    assert_eq!(seen, vec![(4, vec![0, 2, 3]), (1, vec![1, 4])]);
    assert!(group_frames(&vec![]).is_empty());
}

#[test]
fn samples_count_frames_that_reach_a_bone() {
    let lengths = vec![2, 3, 0, 1];
    assert_eq!(sample_counts(&lengths, &vec![0, 1, 2, 3], 4), vec![3, 2, 1, 0]);
    assert_eq!(sample_counts(&lengths, &vec![1, 3], 2), vec![2, 1]);
    assert_eq!(sample_counts(&lengths, &vec![0, 2], 2), vec![1, 1]);
}

fn arm_clip(sk: &Skeleton, joint: usize) -> Clip {
    let mut clip = AnimationClip::new("swing");
    let mut tr = BoneTrack::new(joint as u16);
    tr.rotation = quat_keys(&[
        (0.0, Quat::from_rotation_z(-0.6)),
        (0.5, Quat::IDENTITY),
        (1.0, Quat::from_rotation_z(0.6)),
    ]);
    clip.tracks.push(tr);
    clip_from_animation(&clip, sk, 30.0)
}

#[test]
fn clip_bakes_into_anisotropic_prior() {
    let (sk, chain, _) = planar_chain(3);
    let baked = arm_clip(&sk, chain[1]);
    assert!(baked.len() > 10, "expected a sampled clip, got {} frames", baked.len());
    let mut builder = MotionPriorBuilder::new(sk.len());
    builder.add_clip(&baked);
    let prior = builder.build();
    assert!(!prior.is_empty());
    let goal = goal_at(Vec3::ZERO);
    let moving = vec3(prior.bias(chain[1], &goal).axis_weight);
    let still = vec3(prior.bias(chain[0], &goal).axis_weight);
    assert!(moving.max_element() > 1.2, "animated joint should learn compliance, got {moving:?}");
    assert!(still.max_element() <= 1.0 + 1e-3, "static joint should stay put, got {still:?}");
}

#[test]
fn solve_reaches_reachable_target_with_prior() {
    let (sk, chain, effector) = planar_chain(3);
    let mut builder = MotionPriorBuilder::new(sk.len());
    builder.add_clip(&arm_clip(&sk, chain[1]));
    let prior = builder.build();
    let target = Vec3::new(1.5, 1.0, 0.0);
    let params = DlsParams::default();
    let (_, dist) = reach(&sk, &chain, effector, target, Some(&prior), None, &params);
    assert!(dist < 1e-2, "prior-steered solve should reach the target, got distance {dist}");
}

#[test]
fn solve_respects_tight_elbow_hinge() {
    let (sk, chain, effector) = planar_chain(3);
    let (lo, hi) = (-0.25_f32, 0.25_f32);
    let limits = vec![None, Some(hinge(Vec3::Z, lo, hi)), None];
    let target = Vec3::new(1.0, 1.8, 0.0);
    let params = DlsParams::default();
    let (pose, _) = reach(&sk, &chain, effector, target, None, Some(&limits), &params);
    let v = rotation_of(mat4(&pose.local[chain[1]])).to_scaled_axis();
    assert!(v.z >= lo - 1e-3 && v.z <= hi + 1e-3, "elbow angle {} out of [{lo}, {hi}]", v.z);
    assert!(v.x.abs() < 1e-2 && v.y.abs() < 1e-2, "hinge should stay about Z, got {v:?}");
}
