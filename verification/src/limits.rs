//! Hard joint limits: ranges of a hinge or of a ball joint's twist and swing,
//! and the table of a humanoid robot.
use vstd::prelude::*;
use crate::scalar;
use crate::scalar::Scalar;

verus! {

/// Length of a swing below which there is no swing: the bit pattern of a
/// billionth.
pub const NO_SWING_BITS: u32 = 0x3089_705F;

/// Squared length of a projected rotation below which there is no twist: the
/// bit pattern of a trillionth.
pub const NO_TWIST_BITS: u32 = 0x2B8C_BCCC;

/// How far an axis may lean toward the first coordinate axis before the second
/// one serves to build a frame around it: the bit pattern of nine tenths.
pub const LEAN_BITS: u32 = 0x3F66_6666;

/// A coordinate axis.
#[derive(Clone, Copy, Debug, PartialEq, Eq, Structural)]
pub enum Axis {
    X,
    Y,
    Z,
}

/// The unit vector along an axis.
pub open spec fn unit(axis: Axis) -> Seq<Scalar> {
    match axis {
        Axis::X => seq![Scalar::one(), Scalar::zero(), Scalar::zero()],
        Axis::Y => seq![Scalar::zero(), Scalar::one(), Scalar::zero()],
        Axis::Z => seq![Scalar::zero(), Scalar::zero(), Scalar::one()],
    }
}

/// The unit vector along an axis.
pub fn unit_vector(axis: Axis) -> (r: [Scalar; 3])
    ensures
        r@ == unit(axis),
{
    let (zero, one) = (Scalar::zero(), Scalar::one());
    let r = match axis {
        Axis::X => [one, zero, zero],
        Axis::Y => [zero, one, zero],
        Axis::Z => [zero, zero, one],
    };
    assert(r@ =~= unit(axis));
    r
}

/// A hard limit of a joint. Angles are in radians.
#[derive(Clone, Copy, Debug, PartialEq, Eq)]
pub enum JointLimit {
    /// One axis, with a range of angles about it.
    Hinge { axis: [Scalar; 3], min: Scalar, max: Scalar },
    /// A range of twist about an axis, and the two half angles of an elliptical
    /// cone of swing away from it.
    SwingTwist { twist_axis: [Scalar; 3], twist: (Scalar, Scalar), swing: (Scalar, Scalar) },
}

impl JointLimit {
    /// The ranges are in order, and the half angles are not below zero.
    pub open spec fn wf(self) -> bool {
        match self {
            JointLimit::Hinge { min, max, .. } => min.spec_le(max),
            JointLimit::SwingTwist { twist, swing, .. } => {
                &&& twist.0.spec_le(twist.1)
                &&& Scalar::zero().spec_le(swing.0)
                &&& Scalar::zero().spec_le(swing.1)
            },
        }
    }
}

/// A number moved into a range; what is not a number stays.
pub open spec fn clamped(x: Scalar, min: Scalar, max: Scalar) -> Scalar {
    if x.spec_lt(min) {
        min
    } else if max.spec_lt(x) {
        max
    } else {
        x
    }
}

/// Move a number into a range.
pub fn clamp_number(x: Scalar, min: Scalar, max: Scalar) -> (r: Scalar)
    requires
        min.spec_le(max),
    ensures
        r == clamped(x, min, max),
{
    if x.less(min) {
        min
    } else if max.less(x) {
        max
    } else {
        x
    }
}

/// The angles of a rotation about a limit's axis: the angle about a hinge, or
/// the twist and the two swing components of a ball joint.
#[derive(Clone, Copy, Debug, PartialEq, Eq, Structural)]
pub struct JointAngles {
    pub twist: Scalar,
    pub swing_u: Scalar,
    pub swing_v: Scalar,
}

/// The negative of a number.
pub open spec fn negative_of(x: Scalar) -> Scalar {
    Scalar {
        bits: if x.negative() {
            (x.bits - crate::scalar::SIGN_BIT) as u32
        } else {
            (x.bits + crate::scalar::SIGN_BIT) as u32
        },
    }
}

/// How far a swing reaches in its cone.
#[derive(Clone, Copy, Debug, PartialEq, Eq, Structural)]
pub struct SwingReach {
    /// The squares of the two components over their half angles, added up: at
    /// most one inside the cone.
    pub measure: Scalar,
    /// The components of the swing in the same direction that ends on the cone.
    pub u: Scalar,
    pub v: Scalar,
}

/// Whether a cone is flat, that is has a half angle of zero.
pub open spec fn is_flat(swing: (Scalar, Scalar)) -> bool {
    swing.0.spec_le(Scalar::zero()) || swing.1.spec_le(Scalar::zero())
}

/// The swing that a cone leaves: all of it inside the ellipse, and what ends on
/// the ellipse otherwise. A flat cone is a line, or a point, onto which the
/// swing falls.
pub open spec fn limited_swing(swing: (Scalar, Scalar), a: JointAngles, reach: SwingReach) -> (
    Scalar,
    Scalar,
) {
    if is_flat(swing) {
        (
            clamped(a.swing_u, negative_of(swing.0), swing.0),
            clamped(a.swing_v, negative_of(swing.1), swing.1),
        )
    } else if reach.measure.spec_le(Scalar::one()) {
        (a.swing_u, a.swing_v)
    } else {
        (reach.u, reach.v)
    }
}

/// The angles that a limit leaves of a rotation. A hinge drops every swing.
pub open spec fn limited(limit: JointLimit, a: JointAngles, reach: SwingReach) -> JointAngles {
    match limit {
        JointLimit::Hinge { min, max, .. } => JointAngles {
            twist: clamped(a.twist, min, max),
            swing_u: Scalar::zero(),
            swing_v: Scalar::zero(),
        },
        JointLimit::SwingTwist { twist, swing, .. } => JointAngles {
            twist: clamped(a.twist, twist.0, twist.1),
            swing_u: limited_swing(swing, a, reach).0,
            swing_v: limited_swing(swing, a, reach).1,
        },
    }
}

/// Move the angles of a rotation into a limit. `reach` is the reach of its
/// swing; it is not read for a hinge and for a flat cone.
pub fn limit_angles(limit: &JointLimit, a: JointAngles, reach: SwingReach) -> (r: JointAngles)
    requires
        limit.wf(),
    ensures
        r == limited(*limit, a, reach),
{
    match limit {
        JointLimit::Hinge { min, max, .. } => JointAngles {
            twist: clamp_number(a.twist, *min, *max),
            swing_u: Scalar::zero(),
            swing_v: Scalar::zero(),
        },
        JointLimit::SwingTwist { twist, swing, .. } => {
            let kept = clamp_number(a.twist, twist.0, twist.1);
            let flat = swing.0.at_most(Scalar::zero()) || swing.1.at_most(Scalar::zero());
            if flat {
                JointAngles {
                    twist: kept,
                    swing_u: clamp_number(a.swing_u, swing.0.negated(), swing.0),
                    swing_v: clamp_number(a.swing_v, swing.1.negated(), swing.1),
                }
            } else if reach.measure.at_most(Scalar::one()) {
                JointAngles { twist: kept, swing_u: a.swing_u, swing_v: a.swing_v }
            } else {
                JointAngles { twist: kept, swing_u: reach.u, swing_v: reach.v }
            }
        },
    }
}

/// Whether a rotation that projects onto its axis with the given squared length
/// has a twist about it. A half turn across the axis has none.
pub fn has_twist(length_squared: Scalar) -> (r: bool)
    ensures
        r == !length_squared.spec_lt(Scalar { bits: NO_TWIST_BITS }),
{
    !length_squared.less(Scalar::from_bits(NO_TWIST_BITS))
}

/// Whether a swing of the given length is none at all.
pub fn is_still(length: Scalar) -> (r: bool)
    ensures
        r == length.spec_lt(Scalar { bits: NO_SWING_BITS }),
{
    length.less(Scalar::from_bits(NO_SWING_BITS))
}

/// The axis from which a frame around a direction is built: one that the
/// direction does not lean to.
pub fn frame_axis(x: Scalar) -> (r: Axis)
    ensures
        r == (if x.magnitude() < LEAN_BITS {
            Axis::X
        } else {
            Axis::Y
        }),
{
    if x.abs().less(Scalar::from_bits(LEAN_BITS)) {
        Axis::X
    } else {
        Axis::Y
    }
}

/// Whether angles lie inside a limit, `measure` being that of their swing: in
/// the range of a hinge and without swing; or in the range of twist and inside
/// the ellipse, which for a flat cone is a line.
pub open spec fn inside(limit: JointLimit, a: JointAngles, measure: Scalar) -> bool {
    match limit {
        JointLimit::Hinge { min, max, .. } => {
            &&& min.spec_le(a.twist) && a.twist.spec_le(max)
            &&& a.swing_u == Scalar::zero() && a.swing_v == Scalar::zero()
        },
        JointLimit::SwingTwist { twist, swing, .. } => {
            &&& twist.0.spec_le(a.twist) && a.twist.spec_le(twist.1)
            &&& if is_flat(swing) {
                &&& negative_of(swing.0).spec_le(a.swing_u) && a.swing_u.spec_le(swing.0)
                &&& negative_of(swing.1).spec_le(a.swing_v) && a.swing_v.spec_le(swing.1)
            } else {
                measure.spec_le(Scalar::one())
            }
        },
    }
}

/// Limiting leaves angles inside the limit, and angles inside it alone; so
/// limiting twice does what limiting once does. `again` is the reach of the
/// swing that is left, which is inside the ellipse where it was, and where it
/// ends on it.
pub proof fn limiting_is_a_projection(
    limit: JointLimit,
    a: JointAngles,
    reach: SwingReach,
    again: SwingReach,
)
    requires
        limit.wf(),
        !a.twist.nan() && !a.swing_u.nan() && !a.swing_v.nan(),
        again.measure.spec_le(Scalar::one()),
    ensures
        inside(limit, a, reach.measure) ==> limited(limit, a, reach) == a,
        inside(limit, limited(limit, a, reach), again.measure),
        limited(limit, limited(limit, a, reach), again) == limited(limit, a, reach),
{
}

/// The angle that a limit leaves is the nearest one in its range: below the
/// range the lower end, above it the upper end, and inside it the angle itself.
/// That holds of hinges and of the twist of ball joints.
pub proof fn limited_angle_is_nearest(limit: JointLimit, a: JointAngles, reach: SwingReach)
    requires
        limit.wf(),
        !a.twist.nan(),
    ensures
        match limit {
            JointLimit::Hinge { min, max, .. } => scalar::is_nearest(
                limited(limit, a, reach).twist,
                a.twist,
                min,
                max,
            ),
            JointLimit::SwingTwist { twist, .. } => scalar::is_nearest(
                limited(limit, a, reach).twist,
                a.twist,
                twist.0,
                twist.1,
            ),
        },
{
}

/// Limiting keeps the order of angles, for hinges and for the twist of ball
/// joints: a joint that is turned further does not end up turned less.
pub proof fn limiting_keeps_order(
    limit: JointLimit,
    a: JointAngles,
    b: JointAngles,
    reach: SwingReach,
    other: SwingReach,
)
    requires
        limit.wf(),
        a.twist.spec_le(b.twist),
    ensures
        limited(limit, a, reach).twist.spec_le(limited(limit, b, other).twist),
{
}

/// A hinge leaves no swing. A ball joint leaves a swing inside its ellipse as it
/// is, and of one outside what ends on the ellipse; on a flat cone each part of
/// the swing falls onto the nearest one within its half angle.
pub proof fn limited_swing_is_within_its_cone(limit: JointLimit, a: JointAngles, reach: SwingReach)
    requires
        limit.wf(),
        !a.swing_u.nan() && !a.swing_v.nan() && !reach.measure.nan(),
    ensures
        ({
            let r = limited(limit, a, reach);
            match limit {
                JointLimit::Hinge { .. } => r.swing_u.bits == 0 && r.swing_v.bits == 0,
                JointLimit::SwingTwist { swing, .. } => {
                    &&& Scalar::zero().spec_lt(swing.0) && Scalar::zero().spec_lt(swing.1) ==> {
                        &&& reach.measure.spec_le(Scalar::one()) ==> r.swing_u == a.swing_u
                            && r.swing_v == a.swing_v
                        &&& Scalar::one().spec_lt(reach.measure) ==> r.swing_u == reach.u
                            && r.swing_v == reach.v
                    }
                    &&& swing.0.magnitude() == 0 || swing.1.magnitude() == 0 ==> {
                        &&& r.swing_u.magnitude() <= swing.0.magnitude()
                        &&& r.swing_v.magnitude() <= swing.1.magnitude()
                        &&& a.swing_u.magnitude() <= swing.0.magnitude() ==> r.swing_u == a.swing_u
                        &&& a.swing_v.magnitude() <= swing.1.magnitude() ==> r.swing_v == a.swing_v
                        &&& a.swing_u.magnitude() > swing.0.magnitude() ==> r.swing_u.magnitude()
                            == swing.0.magnitude() && (swing.0.magnitude() > 0
                            ==> r.swing_u.negative() == a.swing_u.negative())
                        &&& a.swing_v.magnitude() > swing.1.magnitude() ==> r.swing_v.magnitude()
                            == swing.1.magnitude() && (swing.1.magnitude() > 0
                            ==> r.swing_v.negative() == a.swing_v.negative())
                    }
                },
            }
        }),
{
}

// ── table ─────────────────────────────────────────────────────────────────────

/// The joints of the G1 robot: name, axis and range of each, in radians.
pub open spec fn g1_rows() -> Seq<(Seq<char>, Axis, u32, u32)> {
    seq![
        ("left_hip_pitch_joint"@, Axis::Y, 0xC021_F6FD, 0x4038_4EA5),
        ("left_hip_roll_joint"@, Axis::X, 0xBF06_0AA6, 0x403D_E4F7),
        ("left_hip_yaw_joint"@, Axis::Z, 0xC030_7C85, 0x4030_7C85),
        ("left_knee_joint"@, Axis::Y, 0xBDB2_B90A, 0x4038_4EA5),
        ("left_ankle_pitch_joint"@, Axis::Y, 0xBF5F_674D, 0x3F06_0AA6),
        ("left_ankle_roll_joint"@, Axis::X, 0xBE86_0AA6, 0x3E86_0AA6),
        ("right_hip_pitch_joint"@, Axis::Y, 0xC021_F6FD, 0x4038_4EA5),
        ("right_hip_roll_joint"@, Axis::X, 0xC03D_E4F7, 0x3F06_0AA6),
        ("right_hip_yaw_joint"@, Axis::Z, 0xC030_7C85, 0x4030_7C85),
        ("right_knee_joint"@, Axis::Y, 0xBDB2_B90A, 0x4038_4EA5),
        ("right_ankle_pitch_joint"@, Axis::Y, 0xBF5F_674D, 0x3F06_0AA6),
        ("right_ankle_roll_joint"@, Axis::X, 0xBE86_0AA6, 0x3E86_0AA6),
        ("waist_yaw_joint"@, Axis::Z, 0xC027_8D50, 0x4027_8D50),
        ("waist_roll_joint"@, Axis::X, 0xBF05_1EB8, 0x3F05_1EB8),
        ("waist_pitch_joint"@, Axis::Y, 0xBF05_1EB8, 0x3F05_1EB8),
        ("left_shoulder_pitch_joint"@, Axis::Y, 0xC045_B574, 0x402A_E7D5),
        ("left_shoulder_roll_joint"@, Axis::X, 0xBFCB_4A23, 0x4010_1893),
        ("left_shoulder_yaw_joint"@, Axis::Z, 0xC027_8D50, 0x4027_8D50),
        ("left_elbow_joint"@, Axis::Y, 0xBF86_0AA6, 0x4006_0AA6),
        ("left_wrist_roll_joint"@, Axis::X, 0xBFFC_710D, 0x3FFC_710D),
        ("left_wrist_pitch_joint"@, Axis::Y, 0xBFCE_A4A9, 0x3FCE_A4A9),
        ("left_wrist_yaw_joint"@, Axis::Z, 0xBFCE_A4A9, 0x3FCE_A4A9),
        ("right_shoulder_pitch_joint"@, Axis::Y, 0xC045_B574, 0x402A_E7D5),
        ("right_shoulder_roll_joint"@, Axis::X, 0xC010_1893, 0x3FCB_4A23),
        ("right_shoulder_yaw_joint"@, Axis::Z, 0xC027_8D50, 0x4027_8D50),
        ("right_elbow_joint"@, Axis::Y, 0xBF86_0AA6, 0x4006_0AA6),
        ("right_wrist_roll_joint"@, Axis::X, 0xBFFC_710D, 0x3FFC_710D),
        ("right_wrist_pitch_joint"@, Axis::Y, 0xBFCE_A4A9, 0x3FCE_A4A9),
        ("right_wrist_yaw_joint"@, Axis::Z, 0xBFCE_A4A9, 0x3FCE_A4A9),
    ]
}

/// A named limit is the one of a row.
pub open spec fn is_row(entry: (&str, JointLimit), row: (Seq<char>, Axis, u32, u32)) -> bool {
    entry.0@ == row.0 && (entry.1 matches JointLimit::Hinge { axis, min, max } && axis@ == unit(
        row.1,
    ) && min.bits == row.2 && max.bits == row.3)
}

fn push_hinge(
    r: &mut Vec<(&'static str, JointLimit)>,
    name: &'static str,
    axis: Axis,
    min: u32,
    max: u32,
)
    ensures
        final(r)@.len() == old(r)@.len() + 1,
        forall|i: int| 0 <= i < old(r)@.len() ==> #[trigger] final(r)@[i] == old(r)@[i],
        is_row(final(r)@[old(r)@.len() as int], (name@, axis, min, max)),
{
    r.push(
        (
            name,
            JointLimit::Hinge {
                axis: unit_vector(axis),
                min: Scalar::from_bits(min),
                max: Scalar::from_bits(max),
            },
        ),
    );
}

/// The joint limits of the G1 robot with 29 degrees of freedom.
pub fn g1_29dof_limits() -> (r: Vec<(&'static str, JointLimit)>)
    ensures
        r@.len() == g1_rows().len(),
        forall|i: int| 0 <= i < r@.len() ==> is_row(#[trigger] r@[i], g1_rows()[i]),
{
    let mut r: Vec<(&'static str, JointLimit)> = Vec::new();
    push_hinge(&mut r, "left_hip_pitch_joint", Axis::Y, 0xC021_F6FD, 0x4038_4EA5);
    push_hinge(&mut r, "left_hip_roll_joint", Axis::X, 0xBF06_0AA6, 0x403D_E4F7);
    push_hinge(&mut r, "left_hip_yaw_joint", Axis::Z, 0xC030_7C85, 0x4030_7C85);
    push_hinge(&mut r, "left_knee_joint", Axis::Y, 0xBDB2_B90A, 0x4038_4EA5);
    push_hinge(&mut r, "left_ankle_pitch_joint", Axis::Y, 0xBF5F_674D, 0x3F06_0AA6);
    push_hinge(&mut r, "left_ankle_roll_joint", Axis::X, 0xBE86_0AA6, 0x3E86_0AA6);
    push_hinge(&mut r, "right_hip_pitch_joint", Axis::Y, 0xC021_F6FD, 0x4038_4EA5);
    push_hinge(&mut r, "right_hip_roll_joint", Axis::X, 0xC03D_E4F7, 0x3F06_0AA6);
    push_hinge(&mut r, "right_hip_yaw_joint", Axis::Z, 0xC030_7C85, 0x4030_7C85);
    push_hinge(&mut r, "right_knee_joint", Axis::Y, 0xBDB2_B90A, 0x4038_4EA5);
    push_hinge(&mut r, "right_ankle_pitch_joint", Axis::Y, 0xBF5F_674D, 0x3F06_0AA6);
    push_hinge(&mut r, "right_ankle_roll_joint", Axis::X, 0xBE86_0AA6, 0x3E86_0AA6);
    push_hinge(&mut r, "waist_yaw_joint", Axis::Z, 0xC027_8D50, 0x4027_8D50);
    push_hinge(&mut r, "waist_roll_joint", Axis::X, 0xBF05_1EB8, 0x3F05_1EB8);
    push_hinge(&mut r, "waist_pitch_joint", Axis::Y, 0xBF05_1EB8, 0x3F05_1EB8);
    push_hinge(&mut r, "left_shoulder_pitch_joint", Axis::Y, 0xC045_B574, 0x402A_E7D5);
    push_hinge(&mut r, "left_shoulder_roll_joint", Axis::X, 0xBFCB_4A23, 0x4010_1893);
    push_hinge(&mut r, "left_shoulder_yaw_joint", Axis::Z, 0xC027_8D50, 0x4027_8D50);
    push_hinge(&mut r, "left_elbow_joint", Axis::Y, 0xBF86_0AA6, 0x4006_0AA6);
    push_hinge(&mut r, "left_wrist_roll_joint", Axis::X, 0xBFFC_710D, 0x3FFC_710D);
    push_hinge(&mut r, "left_wrist_pitch_joint", Axis::Y, 0xBFCE_A4A9, 0x3FCE_A4A9);
    push_hinge(&mut r, "left_wrist_yaw_joint", Axis::Z, 0xBFCE_A4A9, 0x3FCE_A4A9);
    push_hinge(&mut r, "right_shoulder_pitch_joint", Axis::Y, 0xC045_B574, 0x402A_E7D5);
    push_hinge(&mut r, "right_shoulder_roll_joint", Axis::X, 0xC010_1893, 0x3FCB_4A23);
    push_hinge(&mut r, "right_shoulder_yaw_joint", Axis::Z, 0xC027_8D50, 0x4027_8D50);
    push_hinge(&mut r, "right_elbow_joint", Axis::Y, 0xBF86_0AA6, 0x4006_0AA6);
    push_hinge(&mut r, "right_wrist_roll_joint", Axis::X, 0xBFFC_710D, 0x3FFC_710D);
    push_hinge(&mut r, "right_wrist_pitch_joint", Axis::Y, 0xBFCE_A4A9, 0x3FCE_A4A9);
    push_hinge(&mut r, "right_wrist_yaw_joint", Axis::Z, 0xBFCE_A4A9, 0x3FCE_A4A9);
    r
}

/// Each row of a left limb and the row of its right counterpart.
pub open spec fn is_mirror_pair(i: int, j: int) -> bool {
    (0 <= i < 6 && j == i + 6) || (15 <= i < 22 && j == i + 7)
}

/// The two sides mirror one another: a right joint turns about the same axis as its left
/// counterpart, through the same range where the axis points sideways and
/// through the opposite range elsewhere.
pub proof fn g1_sides_mirror(i: int, j: int)
    requires
        is_mirror_pair(i, j),
    ensures
        g1_rows().len() == 29,
        ({
            let (left, right) = (g1_rows()[i], g1_rows()[j]);
            &&& left.1 == right.1
            &&& left.1 is Y ==> right.2 == left.2 && right.3 == left.3
            &&& !(left.1 is Y) ==> right.2 == negative_of((Scalar { bits: left.3 })).bits
                && right.3 == negative_of((Scalar { bits: left.2 })).bits
        }),
{
}

/// Every range of the table is in order and holds the rest angle.
pub proof fn g1_ranges_hold_rest(i: int)
    requires
        0 <= i < g1_rows().len(),
    ensures
        (Scalar { bits: g1_rows()[i].2 }).spec_lt(Scalar::zero()),
        Scalar::zero().spec_lt((Scalar { bits: g1_rows()[i].3 })),
{
}

/// A number moved into a range is the nearest one of the range.
pub proof fn clamped_number_is_nearest(x: Scalar, min: Scalar, max: Scalar)
    requires
        min.spec_le(max),
        !x.nan(),
    ensures
        scalar::is_nearest(clamped(x, min, max), x, min, max),
{
}

/// The negative has the same magnitude and the other sign, the negative of the
/// negative is the number, and negatives are in the opposite order.
pub proof fn negatives_are_mirrored(x: Scalar, y: Scalar)
    ensures
        negative_of(x).magnitude() == x.magnitude(),
        negative_of(x).negative() == !x.negative(),
        negative_of(negative_of(x)) == x,
        x.spec_le(y) <==> negative_of(y).spec_le(negative_of(x)),
{
}

/// A unit vector has a one at the place of its axis and zeros elsewhere.
pub proof fn units_point_along_their_axes(k: int)
    requires
        0 <= k < 3,
    ensures
        unit(Axis::X)[k].bits == if k == 0 { 0x3F80_0000u32 } else { 0 },
        unit(Axis::Y)[k].bits == if k == 1 { 0x3F80_0000u32 } else { 0 },
        unit(Axis::Z)[k].bits == if k == 2 { 0x3F80_0000u32 } else { 0 },
{
}

/// A cone is flat exactly if one of its half angles is not above zero.
pub proof fn cones_open_both_ways(swing: (Scalar, Scalar))
    requires
        !swing.0.nan() && !swing.1.nan(),
    ensures
        !is_flat(swing) <==> Scalar::zero().spec_lt(swing.0) && Scalar::zero().spec_lt(swing.1),
        is_flat(swing) == is_flat((swing.1, swing.0)),
{
}

} // verus!
