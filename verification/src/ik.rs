//! Inverse kinematics: poses, solver settings, and what the solver is steered
//! by.
use vstd::prelude::*;
use crate::chain;
use crate::limits::JointLimit;
use crate::listing;
use crate::prior::{GoalDescriptor, JointBias, MotionPrior};
use crate::prior;
use crate::scalar::Scalar;
use crate::skeleton::{Matrix, Skeleton};
use crate::skeleton;

verus! {

/// A layer of local transforms over a skeleton's bind pose.
#[derive(Clone, Debug)]
pub struct Pose {
    /// Local transform per bone.
    pub local: Vec<Matrix>,
}

impl Pose {
    /// The bind pose.
    pub fn from_bind(skeleton: &Skeleton) -> (p: Pose)
        ensures
            p.local@ == Seq::new(
                skeleton.bones@.len(),
                |i: int| skeleton.bones@[i].local_bind,
            ),
    {
        let mut local: Vec<Matrix> = Vec::new();
        let mut i: usize = 0;
        while i < skeleton.len()
            invariant
                i <= skeleton.bones@.len(),
                local@.len() == i,
                forall|j: int| 0 <= j < i ==> #[trigger] local@[j] == skeleton.bones@[j].local_bind,
            decreases skeleton.bones@.len() - i,
        {
            local.push(skeleton.bones[i].local_bind);
            i += 1;
        }
        assert(local@ =~= Seq::new(
            skeleton.bones@.len(),
            |i: int| skeleton.bones@[i].local_bind,
        ));
        Pose { local }
    }

    /// The local transforms whose product is the global transform of bone `i`,
    /// from the root down to the bone itself.
    pub fn factors(&self, skeleton: &Skeleton, i: usize) -> (r: Vec<Matrix>)
        requires
            self.local@.len() == skeleton.bones@.len(),
            chain::has_root(skeleton::parents_of(skeleton.bones@), i as int),
        ensures
            forall|n: nat|
                chain::rooted(skeleton::parents_of(skeleton.bones@), i as int, n) ==> r@
                    == (#[trigger] chain::ancestry(
                    skeleton::parents_of(skeleton.bones@),
                    i as int,
                    n,
                )).map_values(|b: int| self.local@[b]),
    {
        let ghost parents = skeleton::parents_of(skeleton.bones@);
        let path = skeleton.bind_path(i);
        let count: usize = self.local.len();
        let ghost n = choose|n: nat| chain::rooted(parents, i as int, n);
        let ghost up = chain::ancestry(parents, i as int, n);
        proof {
            ancestry_in_range(parents, i as int, n);
        }
        let mut r: Vec<Matrix> = Vec::new();
        let mut k: usize = 0;
        while k < path.len()
            invariant
                k <= path@.len(),
                path@ == listing::as_usize(up),
                self.local@.len() == parents.len(),
                count == parents.len(),
                forall|j: int| 0 <= j < up.len() ==> 0 <= #[trigger] up[j] < parents.len(),
                r@.len() == k,
                forall|j: int| 0 <= j < k ==> #[trigger] r@[j] == self.local@[up[j]],
            decreases path@.len() - k,
        {
            assert(path@[k as int] == up[k as int] as usize);
            assert(0 <= up[k as int] < parents.len());
            r.push(self.local[path[k]]);
            k += 1;
        }
        proof {
            assert(r@ =~= up.map_values(|b: int| self.local@[b]));
            assert forall|m: nat| chain::rooted(parents, i as int, m) implies r@
                == (#[trigger] chain::ancestry(parents, i as int, m)).map_values(
                |b: int| self.local@[b],
            ) by {
                chain::ancestry_same(parents, i as int, n, m);
            }
        }
        r
    }
}

proof fn ancestry_in_range(parents: Seq<Option<usize>>, i: int, n: nat)
    requires
        chain::rooted(parents, i, n),
    ensures
        forall|k: int|
            0 <= k < chain::ancestry(parents, i, n).len() ==> 0 <= #[trigger] chain::ancestry(
                parents,
                i,
                n,
            )[k] < parents.len(),
    decreases n,
{
    if let Some(p) = parents[i] {
        ancestry_in_range(parents, p as int, (n - 1) as nat);
        let above = chain::ancestry(parents, p as int, (n - 1) as nat);
        let all = chain::ancestry(parents, i, n);
        assert forall|k: int| 0 <= k < all.len() implies 0 <= #[trigger] all[k] < parents.len() by {
            if k < above.len() {
                assert(all[k] == above[k]);
            }
        }
    }
}

/// Settings of the damped least-squares solver.
#[derive(Clone, Copy, Debug, PartialEq, Eq, Structural)]
pub struct DlsParams {
    /// Number of outer iterations.
    pub iterations: usize,
    /// Damping factor.
    pub damping: Scalar,
    /// Scale of each joint update.
    pub step: Scalar,
    /// How strongly the chain relaxes toward the preferred pose; zero disables
    /// it.
    pub posture_gain: Scalar,
    /// Distance to the target at which the solver stops.
    pub tolerance: Scalar,
}

/// Bit pattern of the damping when nothing else is asked for: a half.
pub const DAMPING_BITS: u32 = 0x3F00_0000;

/// Bit pattern of the posture gain when nothing else is asked for: a tenth.
pub const POSTURE_GAIN_BITS: u32 = 0x3DCC_CCCD;

/// Bit pattern of the tolerance when nothing else is asked for: a thousandth.
pub const TOLERANCE_BITS: u32 = 0x3A83_126F;

impl Default for DlsParams {
    /// The settings when nothing else is asked for.
    fn default() -> (p: DlsParams)
        ensures
            p.iterations == 16,
            p.damping.bits == DAMPING_BITS,
            p.step == Scalar::one(),
            p.posture_gain.bits == POSTURE_GAIN_BITS,
            p.tolerance.bits == TOLERANCE_BITS,
    {
        DlsParams {
            iterations: 16,
            damping: Scalar::from_bits(DAMPING_BITS),
            step: Scalar::one(),
            posture_gain: Scalar::from_bits(POSTURE_GAIN_BITS),
            tolerance: Scalar::from_bits(TOLERANCE_BITS),
        }
    }
}

impl DlsParams {
    /// Whether the solver takes another step after `done` steps that left the
    /// effector at `distance` from the target.
    pub fn keeps_going(&self, done: usize, distance: Scalar) -> (r: bool)
        ensures
            r == (done < self.iterations && !distance.spec_lt(self.tolerance)),
            done >= self.iterations || distance.spec_lt(self.tolerance) <==> !r,
    {
        done < self.iterations && !distance.less(self.tolerance)
    }

    /// Whether the chain relaxes toward the preferred pose.
    pub fn posture_on(&self) -> (r: bool)
        ensures
            r == Scalar::zero().spec_lt(self.posture_gain),
    {
        self.posture_gain.is_positive()
    }
}

/// What steers each joint of a chain: its bias under the goal, or the neutral
/// bias without a prior.
pub fn chain_biases(prior: Option<&MotionPrior>, chain: &Vec<usize>, goal: &GoalDescriptor) -> (r: Vec<
    JointBias,
>)
    ensures
        r@.len() == chain@.len(),
        forall|k: int|
            0 <= k < r@.len() ==> match prior {
                Some(p) => prior::holds_for(#[trigger] r@[k], *p, chain@[k] as int, *goal),
                None => prior::neutral(r@[k]),
            },
{
    let mut r: Vec<JointBias> = Vec::new();
    let mut k: usize = 0;
    while k < chain.len()
        invariant
            k <= chain@.len(),
            r@.len() == k,
            forall|j: int|
                0 <= j < k ==> match prior {
                    Some(p) => prior::holds_for(#[trigger] r@[j], *p, chain@[j] as int, *goal),
                    None => prior::neutral(r@[j]),
                },
        decreases chain@.len() - k,
    {
        let bias = match prior {
            Some(p) => p.bias(chain[k], goal),
            None => JointBias::default(),
        };
        r.push(bias);
        k += 1;
    }
    r
}

/// One joint update of a solver pass.
#[derive(Clone, Copy, Debug, PartialEq, Eq, Structural)]
pub struct JointStep {
    /// The place of the joint in the chain.
    pub slot: usize,
    pub bone: usize,
    /// The bone whose world rotation is stripped, if the joint has a parent.
    pub parent: Option<usize>,
    /// Whether a limit holds the joint.
    pub limited: bool,
}

/// Whether a limit holds the joint at a place of the chain.
pub open spec fn is_limited(limits: Option<Seq<Option<JointLimit>>>, slot: int) -> bool {
    limits matches Some(list) && slot < list.len() && list[slot] is Some
}

/// The update of the joint at a place of the chain.
pub open spec fn step_at(
    skeleton: Skeleton,
    chain: Seq<usize>,
    limits: Option<Seq<Option<JointLimit>>>,
    slot: int,
) -> JointStep {
    JointStep {
        slot: slot as usize,
        bone: chain[slot],
        parent: skeleton.bones@[chain[slot] as int].parent,
        limited: is_limited(limits, slot),
    }
}

/// The joint updates of one pass over the first `count` joints of a chain, from
/// the root on, so that every joint sees its updated parents.
pub fn pass_steps(
    skeleton: &Skeleton,
    chain: &Vec<usize>,
    limits: Option<&Vec<Option<JointLimit>>>,
    count: usize,
) -> (r: Vec<JointStep>)
    requires
        count <= chain@.len(),
        forall|k: int| 0 <= k < chain@.len() ==> #[trigger] chain@[k] < skeleton.bones@.len(),
    ensures
        ({
            let list = match limits {
                Some(l) => Some(l@),
                None => None,
            };
            r@ == Seq::new(count as nat, |k: int| step_at(*skeleton, chain@, list, k))
        }),
{
    let ghost list = match limits {
        Some(l) => Some(l@),
        None => None,
    };
    let ghost step = |k: int| step_at(*skeleton, chain@, list, k);
    let mut r: Vec<JointStep> = Vec::new();
    let mut k: usize = 0;
    while k < count
        invariant
            k <= count <= chain@.len(),
            forall|k: int| 0 <= k < chain@.len() ==> #[trigger] chain@[k] < skeleton.bones@.len(),
            list == (match limits {
                Some(l) => Some(l@),
                None => None,
            }),
            step == (|k: int| step_at(*skeleton, chain@, list, k)),
            r@ == Seq::new(k as nat, step),
        decreases count - k,
    {
        let limited = match limits {
            Some(l) => k < l.len() && l[k].is_some(),
            None => false,
        };
        assert(chain@[k as int] < skeleton.bones@.len());
        let bone: usize = chain[k];
        r.push(JointStep { slot: k, bone, parent: skeleton.bones[bone].parent, limited });
        assert(r@ =~= Seq::new((k + 1) as nat, step));
        k += 1;
    }
    r
}

/// A joint that descends from another joint of the chain is updated after it,
/// if the chain lists ancestors first.
pub proof fn passes_run_from_the_root(
    skeleton: Skeleton,
    chain: Seq<usize>,
    limits: Option<Seq<Option<JointLimit>>>,
    count: nat,
    a: int,
    b: int,
)
    requires
        count <= chain.len() <= usize::MAX,
        forall|i: int, j: int|
            0 <= i < j < chain.len() ==> #[trigger] chain[i] < #[trigger] chain[j],
        0 <= a < count,
        0 <= b < count,
        step_at(skeleton, chain, limits, b).parent == Some(chain[a]),
        skeleton::topological(skeleton.bones@),
        chain[b] < skeleton.bones@.len(),
    ensures
        a < b,
{
    assert(!skeleton::misplaced(skeleton.bones@, chain[b] as int));
    if b < a {
        assert(chain[b] < chain[a]);
    }
}

/// Squared length below which a direction is none: the bit pattern of a
/// trillionth.
pub const NO_AIM_BITS: u32 = 0x2B8C_BCCC;

/// Squared distance from a limb's line below which a pole gives no direction to
/// bend: the bit pattern of a ten-billionth.
pub const NO_POLE_BITS: u32 = 0x2EDB_E6FF;

/// Whether a bone can be turned from one direction to another, given the
/// squared lengths of both.
pub fn can_aim(current: Scalar, desired: Scalar) -> (r: bool)
    ensures
        r == !(current.spec_lt(Scalar { bits: NO_AIM_BITS }) || desired.spec_lt(
            Scalar { bits: NO_AIM_BITS },
        )),
{
    let least = Scalar::from_bits(NO_AIM_BITS);
    !(current.less(least) || desired.less(least))
}

/// Whether a limb bends toward its pole, given the squared distance of the pole
/// from the limb's line. Otherwise it bends any way.
pub fn bends_to_pole(distance_squared: Scalar) -> (r: bool)
    ensures
        r == !distance_squared.spec_lt(Scalar { bits: NO_POLE_BITS }),
{
    !distance_squared.less(Scalar::from_bits(NO_POLE_BITS))
}

/// What a positional chain does to reach a target.
#[derive(Clone, Copy, Debug, PartialEq, Eq, Structural)]
pub enum Reach {
    /// Too short to move.
    Stay,
    /// The target is out of reach: stretch toward it.
    Stretch,
    /// Sweep back and forth until the tip is there.
    Sweep,
}

/// Choose how a chain of `joints` joints and `total` length reaches a target at
/// `distance` from its root.
pub fn reach_mode(joints: usize, distance: Scalar, total: Scalar) -> (r: Reach)
    ensures
        r == (if joints < 2 {
            Reach::Stay
        } else if total.spec_le(distance) {
            Reach::Stretch
        } else {
            Reach::Sweep
        }),
        r is Stay <==> joints <= 1,
        r is Stretch ==> total.spec_le(distance),
        r is Sweep && !distance.nan() && !total.nan() ==> distance.spec_lt(total),
{
    if joints < 2 {
        Reach::Stay
    } else if total.at_most(distance) {
        Reach::Stretch
    } else {
        Reach::Sweep
    }
}

/// Whether another sweep follows after `done` of them left the tip at `distance`
/// from the target. There is always a first one.
pub fn sweeps_on(done: usize, iterations: usize, distance: Scalar, tolerance: Scalar) -> (r: bool)
    ensures
        r == (done == 0 || (done < iterations && !distance.spec_lt(tolerance))),
        !r ==> done > 0 && (done >= iterations || distance.spec_lt(tolerance)),
        done > 0 && (done >= iterations || distance.spec_lt(tolerance)) ==> !r,
{
    done == 0 || (done < iterations && !distance.less(tolerance))
}

/// A step names its own place, the bone that the chain lists there and the
/// parent that the skeleton gives this bone. It is limited exactly if limits
/// were handed in and there is one for this place, so without limits no step
/// is.
pub proof fn steps_name_chain_and_skeleton(
    skeleton: Skeleton,
    chain: Seq<usize>,
    limits: Seq<Option<JointLimit>>,
    slot: int,
)
    requires
        0 <= slot < chain.len() <= usize::MAX,
    ensures
        ({
            let step = step_at(skeleton, chain, Some(limits), slot);
            let free = step_at(skeleton, chain, None, slot);
            &&& step.slot == slot && free.slot == slot
            &&& chain[step.slot as int] == step.bone && free.bone == step.bone
            &&& step.parent == skeleton.bones@[step.bone as int].parent
            &&& free.parent == step.parent
            &&& !free.limited
            &&& step.limited ==> slot < limits.len() && limits[slot] is Some
            &&& slot < limits.len() && !step.limited ==> limits[slot] is None
        }),
{
}

} // verus!
