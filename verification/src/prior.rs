//! Goal-conditioned motion prior: per-bone steering biases, looked up by where
//! the goal lies relative to the body.
use std::collections::HashMap;
use vstd::prelude::*;
use crate::scalar::Scalar;

verus! {

/// Number of radial distance shells.
pub const NUM_SHELLS: u32 = 3;

/// Distance below which a goal is near: the bit pattern of a half.
pub const SHELL_NEAR_BITS: u32 = 0x3F00_0000;

/// Distance from which on a goal is far: the bit pattern of one and a half.
pub const SHELL_FAR_BITS: u32 = 0x3FC0_0000;

/// Distance below which a goal has no direction: the bit pattern of a millionth.
pub const NO_DIRECTION_BITS: u32 = 0x3586_37BD;

/// The cell of a goal without direction.
pub const FALLBACK_CELL: u32 = u32::MAX;

/// Samples that a bone of a cell needs before its own bias is used.
pub const MIN_CELL_SAMPLES: u32 = 2;

// ── cells ─────────────────────────────────────────────────────────────────────

/// Where a goal lies, in the frame of the body.
#[derive(Clone, Copy, Debug, PartialEq, Eq)]
pub struct GoalDescriptor {
    pub target_local: [Scalar; 3],
    /// Distance of the target from the body's origin.
    pub target_length: Scalar,
    pub approach_local: [Scalar; 3],
    pub action_tag: Option<u16>,
}

/// Whether one number is at least as large as another.
pub open spec fn at_least(a: Scalar, b: Scalar) -> bool {
    b.spec_le(a)
}

/// A number without its sign.
pub open spec fn unsigned(x: Scalar) -> Scalar {
    Scalar { bits: x.magnitude() as u32 }
}

/// The sector of a direction: the axis with the largest component, and its
/// sign. Of equally large components the first axis counts.
pub open spec fn sector_of(t: Seq<Scalar>) -> int {
    let (x, y, z) = (unsigned(t[0]), unsigned(t[1]), unsigned(t[2]));
    if at_least(x, y) && at_least(x, z) {
        if at_least(t[0], Scalar::zero()) {
            0
        } else {
            1
        }
    } else if at_least(y, z) {
        if at_least(t[1], Scalar::zero()) {
            2
        } else {
            3
        }
    } else if at_least(t[2], Scalar::zero()) {
        4
    } else {
        5
    }
}

/// The shell of a distance.
pub open spec fn shell_of(length: Scalar) -> int {
    if length.spec_lt(Scalar { bits: SHELL_NEAR_BITS }) {
        0
    } else if length.spec_lt(Scalar { bits: SHELL_FAR_BITS }) {
        1
    } else {
        2
    }
}

/// The cell of a goal.
pub open spec fn cell_of(goal: GoalDescriptor) -> int {
    if goal.target_length.spec_lt(Scalar { bits: NO_DIRECTION_BITS }) {
        FALLBACK_CELL as int
    } else {
        sector_of(goal.target_local@) * NUM_SHELLS + shell_of(goal.target_length)
    }
}

/// Quantise a goal into a coarse cell: six direction sectors by three distance
/// shells. A goal without direction falls into the fallback cell.
pub fn goal_cell(goal: &GoalDescriptor) -> (r: u32)
    ensures
        r == cell_of(*goal),
{
    let len = goal.target_length;
    if len.less(Scalar::from_bits(NO_DIRECTION_BITS)) {
        return FALLBACK_CELL;
    }
    let t = goal.target_local;
    let zero = Scalar::zero();
    let (ax, ay, az) = (t[0].abs(), t[1].abs(), t[2].abs());
    let sector: u32 = if ay.at_most(ax) && az.at_most(ax) {
        if zero.at_most(t[0]) {
            0
        } else {
            1
        }
    } else if az.at_most(ay) {
        if zero.at_most(t[1]) {
            2
        } else {
            3
        }
    } else if zero.at_most(t[2]) {
        4
    } else {
        5
    };
    let shell: u32 = if len.less(Scalar::from_bits(SHELL_NEAR_BITS)) {
        0
    } else if len.less(Scalar::from_bits(SHELL_FAR_BITS)) {
        1
    } else {
        2
    };
    sector * NUM_SHELLS + shell
}

/// A goal falls into one of eighteen cells or the fallback cell; sector and
/// shell can be read off the cell.
pub proof fn cells_are_few(goal: GoalDescriptor)
    ensures
        cell_of(goal) == FALLBACK_CELL || 0 <= cell_of(goal) < 18,
        cell_of(goal) < 18 ==> cell_of(goal) / 3 == sector_of(goal.target_local@) && cell_of(goal)
            % 3 == shell_of(goal.target_length),
{
}

/// The number of the axis along which a direction is longest; of equally long
/// ones the first.
pub open spec fn is_main_axis(t: Seq<Scalar>, axis: int) -> bool {
    &&& 0 <= axis < 3
    &&& forall|k: int| 0 <= k < 3 ==> (#[trigger] t[k]).magnitude() <= t[axis].magnitude()
    &&& forall|k: int| 0 <= k < axis ==> (#[trigger] t[k]).magnitude() < t[axis].magnitude()
}

/// The cell of a goal tells where it lies. Of six sectors, half the number is
/// the main axis and an odd number says that the goal lies on its negative side.
/// The shell counts which of the two distances the goal has reached. A goal too
/// close for a direction, and no other, is in the fallback cell.
pub proof fn cells_tell_direction_and_distance(goal: GoalDescriptor)
    requires
        !goal.target_length.nan(),
        forall|k: int| 0 <= k < 3 ==> !(#[trigger] goal.target_local@[k]).nan(),
    ensures
        cell_of(goal) == u32::MAX <==> goal.target_length.spec_lt(
            Scalar { bits: NO_DIRECTION_BITS },
        ),
        cell_of(goal) != u32::MAX ==> {
            let sector = cell_of(goal) / 3;
            let shell = cell_of(goal) % 3;
            let t = goal.target_local@;
            &&& is_main_axis(t, sector / 2)
            &&& sector % 2 == 1 <==> t[sector / 2].negative() && t[sector / 2].magnitude() > 0
            &&& shell >= 1 <==> (Scalar { bits: SHELL_NEAR_BITS }).spec_le(goal.target_length)
            &&& shell == 2 <==> (Scalar { bits: SHELL_FAR_BITS }).spec_le(goal.target_length)
        },
{
}

/// A goal and its opposite never share a cell.
pub proof fn opposite_goals_are_told_apart(a: GoalDescriptor, b: GoalDescriptor)
    requires
        cell_of(a) != FALLBACK_CELL,
        b.target_length == a.target_length,
        exists|k: int| 0 <= k < 3 && (#[trigger] a.target_local@[k]).magnitude() > 0,
        forall|k: int|
            0 <= k < 3 ==> {
                &&& !(#[trigger] a.target_local@[k]).nan()
                &&& b.target_local@[k].magnitude() == a.target_local@[k].magnitude()
                &&& b.target_local@[k].negative() != a.target_local@[k].negative()
            },
    ensures
        cell_of(a) != cell_of(b),
{
    assert(a.target_local@[0].magnitude() == b.target_local@[0].magnitude());
    assert(a.target_local@[1].magnitude() == b.target_local@[1].magnitude());
    assert(a.target_local@[2].magnitude() == b.target_local@[2].magnitude());
}

// ── biases ────────────────────────────────────────────────────────────────────

/// How compliant a joint is per axis, and the rotation it relaxes toward.
#[derive(Clone, Copy, Debug, PartialEq, Eq)]
pub struct JointBias {
    /// Compliance per axis.
    pub axis_weight: [Scalar; 3],
    /// Preferred local rotation.
    pub preferred: [Scalar; 4],
}

/// Whether a bias is the neutral one: full compliance, identity rotation.
pub open spec fn neutral(bias: JointBias) -> bool {
    &&& bias.axis_weight@ == seq![Scalar::one(), Scalar::one(), Scalar::one()]
    &&& bias.preferred@ == seq![Scalar::zero(), Scalar::zero(), Scalar::zero(), Scalar::one()]
}

impl Default for JointBias {
    /// The neutral bias.
    fn default() -> (b: JointBias)
        ensures
            neutral(b),
    {
        let (o, z) = (Scalar::one(), Scalar::zero());
        let b = JointBias { axis_weight: [o, o, o], preferred: [z, z, z, o] };
        assert(b.axis_weight@ =~= seq![Scalar::one(), Scalar::one(), Scalar::one()]);
        assert(b.preferred@ =~= seq![
            Scalar::zero(),
            Scalar::zero(),
            Scalar::zero(),
            Scalar::one(),
        ]);
        b
    }
}

/// A goal-conditioned motion prior.
#[derive(Debug)]
pub struct MotionPrior {
    /// Bias per bone whatever the goal.
    pub global: Vec<JointBias>,
    /// Biases per bone by goal cell; a bone that a cell knows too little of has
    /// none.
    pub cells: HashMap<u32, Vec<Option<JointBias>>>,
}

/// The bias that a cell records for a bone.
pub open spec fn recorded(cells: Map<u32, Vec<Option<JointBias>>>, cell: u32, bone: int) -> Option<
    JointBias,
> {
    if cells.dom().contains(cell) && bone < cells[cell]@.len() {
        cells[cell]@[bone]
    } else {
        None
    }
}

/// Whether a bias is the one that holds for a bone in a cell: that of the cell,
/// else that of the bone, else the neutral one.
pub open spec fn holds_in(bias: JointBias, prior: MotionPrior, bone: int, cell: u32) -> bool {
    match recorded(prior.cells@, cell, bone) {
        Some(b) => bias == b,
        None => if bone < prior.global@.len() {
            bias == prior.global@[bone]
        } else {
            neutral(bias)
        },
    }
}

/// Whether a bias is the one that holds for a bone and a goal: the one that
/// holds in the goal's cell.
pub open spec fn holds_for(bias: JointBias, prior: MotionPrior, bone: int, goal: GoalDescriptor) -> bool {
    holds_in(bias, prior, bone, cell_of(goal) as u32)
}

impl MotionPrior {
    /// Steering bias for a bone under a goal.
    pub fn bias(&self, bone: usize, goal: &GoalDescriptor) -> (r: JointBias)
        ensures
            holds_for(r, *self, bone as int, *goal),
    {
        self.cell_bias(bone, goal_cell(goal))
    }

    /// Steering bias for a bone in a goal cell.
    pub fn cell_bias(&self, bone: usize, cell: u32) -> (r: JointBias)
        ensures
            holds_in(r, *self, bone as int, cell),
    {
        broadcast use vstd::std_specs::hash::group_hash_axioms;

        if let Some(list) = self.cells.get(&cell) {
            if bone < list.len() {
                if let Some(b) = list[bone] {
                    return b;
                }
            }
        }
        if bone < self.global.len() {
            self.global[bone]
        } else {
            JointBias::default()
        }
    }

    /// Number of bones with a bias whatever the goal.
    pub fn len(&self) -> (n: usize)
        ensures
            n == self.global@.len(),
    {
        self.global.len()
    }

    /// Whether no bone has a bias whatever the goal.
    pub fn is_empty(&self) -> (r: bool)
        ensures
            r == (self.global@.len() == 0),
    {
        self.global.len() == 0
    }

    /// Number of goal cells with recorded data.
    pub fn num_cells(&self) -> (n: usize)
        ensures
            n == self.cells@.dom().len(),
    {
        broadcast use vstd::std_specs::hash::group_hash_axioms;

        self.cells.len()
    }
}

impl Default for MotionPrior {
    /// A prior without data.
    fn default() -> (p: MotionPrior)
        ensures
            p.global@.len() == 0,
            p.cells@ == Map::<u32, Vec<Option<JointBias>>>::empty(),
    {
        broadcast use vstd::std_specs::hash::group_hash_axioms;

        MotionPrior { global: Vec::new(), cells: HashMap::new() }
    }
}

/// A prior without cells knows no goals: every goal gives the same bias.
pub proof fn global_prior_ignores_goal(
    prior: MotionPrior,
    bone: int,
    a: GoalDescriptor,
    b: GoalDescriptor,
    bias: JointBias,
)
    requires
        prior.cells@ == Map::<u32, Vec<Option<JointBias>>>::empty(),
    ensures
        holds_for(bias, prior, bone, a) == holds_for(bias, prior, bone, b),
{
}

// ── building ──────────────────────────────────────────────────────────────────

/// Greatest variance up to which nothing moved: the bit pattern of a billionth.
pub const NO_SPREAD_BITS: u32 = 0x3089_705F;

/// Whether joints moved enough to tell compliant axes from stiff ones, given
/// the greatest variance of an angle.
pub fn has_spread(greatest_variance: Scalar) -> (r: bool)
    ensures
        r == (Scalar { bits: NO_SPREAD_BITS }).spec_lt(greatest_variance),
{
    Scalar::from_bits(NO_SPREAD_BITS).less(greatest_variance)
}

/// What was gathered for the bones of one bucket.
#[derive(Clone, Debug)]
pub struct BucketStats {
    /// Goal cell; not used for the bucket of all goals.
    pub cell: u32,
    /// Samples per bone.
    pub counts: Vec<u32>,
    /// Bias that the samples of a bone give.
    pub biases: Vec<JointBias>,
}

/// Whether some bone has enough samples.
pub open spec fn dense(counts: Seq<u32>, min_samples: u32) -> bool {
    exists|b: int| 0 <= b < counts.len() && #[trigger] counts[b] >= min_samples
}

/// The biases of a cell: those of the bones with enough samples.
pub open spec fn gated(stats: BucketStats, min_samples: u32) -> Seq<Option<JointBias>> {
    Seq::new(
        stats.counts@.len(),
        |b: int|
            if stats.counts@[b] >= min_samples {
                Some(stats.biases@[b])
            } else {
                None
            },
    )
}

/// Whether some bone of a bucket has enough samples.
pub fn any_dense(counts: &Vec<u32>, min_samples: u32) -> (r: bool)
    ensures
        r == dense(counts@, min_samples),
{
    let mut b: usize = 0;
    while b < counts.len()
        invariant
            b <= counts@.len(),
            forall|j: int| 0 <= j < b ==> #[trigger] counts@[j] < min_samples,
        decreases counts@.len() - b,
    {
        if counts[b] >= min_samples {
            assert(counts@[b as int] >= min_samples);
            return true;
        }
        b += 1;
    }
    false
}

/// The biases of a cell, bone by bone.
pub fn finalize_cell(stats: &BucketStats, min_samples: u32) -> (r: Vec<Option<JointBias>>)
    requires
        stats.biases@.len() == stats.counts@.len(),
    ensures
        r@ == gated(*stats, min_samples),
{
    let mut r: Vec<Option<JointBias>> = Vec::new();
    let mut b: usize = 0;
    while b < stats.counts.len()
        invariant
            b <= stats.counts@.len(),
            stats.biases@.len() == stats.counts@.len(),
            r@.len() == b,
            forall|j: int| 0 <= j < b ==> #[trigger] r@[j] == gated(*stats, min_samples)[j],
        decreases stats.counts@.len() - b,
    {
        if stats.counts[b] >= min_samples {
            r.push(Some(stats.biases[b]));
        } else {
            r.push(None);
        }
        b += 1;
    }
    assert(r@ =~= gated(*stats, min_samples));
    r
}

/// Whether some of the first `n` buckets is kept as a cell.
pub open spec fn keeps_cell(buckets: Seq<BucketStats>, cell: u32, n: nat) -> bool {
    exists|i: int|
        0 <= i < n && (#[trigger] buckets[i]).cell == cell && dense(
            buckets[i].counts@,
            MIN_CELL_SAMPLES,
        )
}

/// Whether no two buckets belong to the same cell.
pub open spec fn cells_differ(buckets: Seq<BucketStats>) -> bool {
    forall|i: int, j: int|
        0 <= i < buckets.len() && 0 <= j < buckets.len() && i != j ==> buckets[i].cell
            != buckets[j].cell
}

/// Whether a prior is the one that was gathered.
pub open spec fn built(
    prior: MotionPrior,
    global: BucketStats,
    buckets: Seq<BucketStats>,
) -> bool {
    &&& prior.global@.len() == global.counts@.len()
    &&& forall|b: int|
        0 <= b < prior.global@.len() ==> if global.counts@[b] >= 1 {
            #[trigger] prior.global@[b] == global.biases@[b]
        } else {
            neutral(prior.global@[b])
        }
    &&& forall|cell: u32|
        #[trigger] prior.cells@.dom().contains(cell) <==> keeps_cell(buckets, cell, buckets.len())
    &&& forall|i: int|
        0 <= i < buckets.len() && dense(buckets[i].counts@, MIN_CELL_SAMPLES)
            ==> prior.cells@[(#[trigger] buckets[i]).cell]@ == gated(buckets[i], MIN_CELL_SAMPLES)
}

/// Whether a bucket has enough samples of a bone.
pub open spec fn knows(bucket: BucketStats, bone: int) -> bool {
    bone < bucket.counts@.len() && bucket.counts@[bone] >= MIN_CELL_SAMPLES
}

/// A bone's bias under a goal is that of the goal's cell where the cell has
/// enough samples of the bone. Everywhere else it is the one over all goals, or
/// the neutral one if the bone was never seen.
pub proof fn goals_fall_back(
    prior: MotionPrior,
    global: BucketStats,
    buckets: Seq<BucketStats>,
    bone: int,
    goal: GoalDescriptor,
    bias: JointBias,
)
    requires
        built(prior, global, buckets),
        cells_differ(buckets),
        0 <= bone,
        holds_for(bias, prior, bone, goal),
    ensures
        forall|i: int|
            0 <= i < buckets.len() && (#[trigger] buckets[i]).cell == cell_of(goal) as u32 && knows(
                buckets[i],
                bone,
            ) ==> bias == buckets[i].biases@[bone],
        (forall|i: int|
            0 <= i < buckets.len() && (#[trigger] buckets[i]).cell == cell_of(goal) as u32
                ==> !knows(buckets[i], bone)) ==> if bone < global.counts@.len()
            && global.counts@[bone] >= 1 {
            bias == global.biases@[bone]
        } else {
            neutral(bias)
        },
{
    let cell = cell_of(goal) as u32;
    assert forall|i: int|
        0 <= i < buckets.len() && (#[trigger] buckets[i]).cell == cell && knows(
            buckets[i],
            bone,
        ) implies bias == buckets[i].biases@[bone] by {
        assert(buckets[i].counts@[bone] >= MIN_CELL_SAMPLES);
        assert(dense(buckets[i].counts@, MIN_CELL_SAMPLES));
        assert(keeps_cell(buckets, cell, buckets.len()));
        assert(prior.cells@.dom().contains(cell));
        assert(prior.cells@[buckets[i].cell]@ == gated(buckets[i], MIN_CELL_SAMPLES));
    }
    if forall|i: int|
        0 <= i < buckets.len() && (#[trigger] buckets[i]).cell == cell ==> !knows(buckets[i], bone) {
        if prior.cells@.dom().contains(cell) {
            let i = choose|i: int|
                0 <= i < buckets.len() && (#[trigger] buckets[i]).cell == cell && dense(
                    buckets[i].counts@,
                    MIN_CELL_SAMPLES,
                );
            assert(buckets[i].cell == cell);
            assert(prior.cells@[buckets[i].cell]@ == gated(buckets[i], MIN_CELL_SAMPLES));
        }
        assert(recorded(prior.cells@, cell, bone) is None);
    }
}

/// Build a prior from what was gathered: every observed bone gets its bias in
/// the bucket of all goals; a cell is kept if some bone of it has enough
/// samples, and then records the bones that have.
pub fn build_prior(global: &BucketStats, buckets: &Vec<BucketStats>) -> (r: MotionPrior)
    requires
        global.biases@.len() == global.counts@.len(),
        forall|i: int|
            0 <= i < buckets@.len() ==> (#[trigger] buckets@[i]).biases@.len()
                == buckets@[i].counts@.len(),
        cells_differ(buckets@),
    ensures
        built(r, *global, buckets@),
{
    broadcast use vstd::std_specs::hash::group_hash_axioms;

    let mut all: Vec<JointBias> = Vec::new();
    let mut b: usize = 0;
    while b < global.counts.len()
        invariant
            b <= global.counts@.len(),
            global.biases@.len() == global.counts@.len(),
            all@.len() == b,
            forall|j: int|
                0 <= j < b ==> if global.counts@[j] >= 1 {
                    #[trigger] all@[j] == global.biases@[j]
                } else {
                    neutral(all@[j])
                },
        decreases global.counts@.len() - b,
    {
        if global.counts[b] >= 1 {
            all.push(global.biases[b]);
        } else {
            all.push(JointBias::default());
        }
        b += 1;
    }
    let mut cells: HashMap<u32, Vec<Option<JointBias>>> = HashMap::new();
    let mut i: usize = 0;
    while i < buckets.len()
        invariant
            i <= buckets@.len(),
            forall|i: int|
                0 <= i < buckets@.len() ==> (#[trigger] buckets@[i]).biases@.len()
                    == buckets@[i].counts@.len(),
            forall|i: int, j: int|
                0 <= i < buckets@.len() && 0 <= j < buckets@.len() && i != j ==> buckets@[i].cell
                    != buckets@[j].cell,
            forall|cell: u32|
                #[trigger] cells@.dom().contains(cell) <==> keeps_cell(buckets@, cell, i as nat),
            forall|j: int|
                0 <= j < i && dense(buckets@[j].counts@, MIN_CELL_SAMPLES) ==> cells@[(
                #[trigger] buckets@[j]).cell]@ == gated(buckets@[j], MIN_CELL_SAMPLES),
        decreases buckets@.len() - i,
    {
        let ghost before = cells@;
        let ghost id = buckets@[i as int].cell;
        if any_dense(&buckets[i].counts, MIN_CELL_SAMPLES) {
            let list = finalize_cell(&buckets[i], MIN_CELL_SAMPLES);
            let _ = cells.insert(buckets[i].cell, list);
        }
        proof {
            assert forall|cell: u32| #[trigger] cells@.dom().contains(cell) <==> keeps_cell(
                buckets@,
                cell,
                (i + 1) as nat,
            ) by {
                if keeps_cell(buckets@, cell, i as nat) {
                    let j = choose|j: int|
                        0 <= j < i && (#[trigger] buckets@[j]).cell == cell && dense(
                            buckets@[j].counts@,
                            MIN_CELL_SAMPLES,
                        );
                    assert(buckets@[j].cell == cell);
                }
                if dense(buckets@[i as int].counts@, MIN_CELL_SAMPLES) {
                    assert(keeps_cell(buckets@, id, (i + 1) as nat));
                }
                if keeps_cell(buckets@, cell, (i + 1) as nat) && !keeps_cell(
                    buckets@,
                    cell,
                    i as nat,
                ) {
                    let j = choose|j: int|
                        0 <= j < i + 1 && (#[trigger] buckets@[j]).cell == cell && dense(
                            buckets@[j].counts@,
                            MIN_CELL_SAMPLES,
                        );
                    assert(j == i);
                }
            }
            assert forall|j: int|
                0 <= j < i + 1 && dense(buckets@[j].counts@, MIN_CELL_SAMPLES) implies cells@[(
            #[trigger] buckets@[j]).cell]@ == gated(buckets@[j], MIN_CELL_SAMPLES) by {
                if j < i {
                    assert(buckets@[j].cell != id);
                }
            }
        }
        i += 1;
    }
    MotionPrior { global: all, cells }
}

/// The neutral bias weighs every axis fully and prefers the rotation that turns
/// nothing; there is only one.
pub proof fn neutral_turns_nothing(bias: JointBias, other: JointBias)
    requires
        neutral(bias),
    ensures
        forall|k: int| 0 <= k < 3 ==> (#[trigger] bias.axis_weight@[k]).bits == 0x3F80_0000,
        forall|k: int| 0 <= k < 3 ==> (#[trigger] bias.preferred@[k]).bits == 0,
        bias.preferred@[3].bits == 0x3F80_0000,
        neutral(other) ==> bias.axis_weight@ == other.axis_weight@ && bias.preferred@
            == other.preferred@,
{
    assert(bias.axis_weight@[0].bits == 0x3F80_0000);
    assert(bias.axis_weight@[1].bits == 0x3F80_0000);
    assert(bias.axis_weight@[2].bits == 0x3F80_0000);
    assert(bias.preferred@[0].bits == 0 && bias.preferred@[1].bits == 0);
    assert(bias.preferred@[2].bits == 0 && bias.preferred@[3].bits == 0x3F80_0000);
}

/// A cell records a bone's own bias exactly if the bone has enough samples, so
/// asking for more records no other bones; some bone is recorded exactly if
/// some bone is dense.
pub proof fn gating_follows_the_samples(stats: BucketStats, few: u32, many: u32, b: int)
    requires
        few <= many,
        0 <= b < stats.counts@.len(),
    ensures
        gated(stats, few)[b] is Some <==> few <= stats.counts@[b],
        gated(stats, few)[b] matches Some(x) ==> x == stats.biases@[b],
        gated(stats, many)[b] is Some ==> gated(stats, few)[b] == gated(stats, many)[b],
        dense(stats.counts@, few) <==> exists|k: int|
            0 <= k < stats.counts@.len() && (#[trigger] gated(stats, few)[k]) is Some,
        dense(stats.counts@, many) ==> dense(stats.counts@, few),
{
    if dense(stats.counts@, few) {
        let k = choose|k: int| 0 <= k < stats.counts@.len() && #[trigger] stats.counts@[k] >= few;
        assert(gated(stats, few)[k] is Some);
    }
    if exists|k: int|
        0 <= k < stats.counts@.len() && (#[trigger] gated(stats, few)[k]) is Some {
        let k = choose|k: int|
            0 <= k < stats.counts@.len() && (#[trigger] gated(stats, few)[k]) is Some;
        assert(stats.counts@[k] >= few);
    }
    if dense(stats.counts@, many) {
        let k = choose|k: int| 0 <= k < stats.counts@.len() && #[trigger] stats.counts@[k] >= many;
        assert(stats.counts@[k] >= few);
    }
}

/// What a cell records for a bone is what its list holds at the bone's place;
/// a cell that is not there and a bone beyond the list have nothing recorded.
pub proof fn cells_record_bone_by_bone(
    cells: Map<u32, Vec<Option<JointBias>>>,
    cell: u32,
    list: Vec<Option<JointBias>>,
    bone: int,
    other: u32,
)
    requires
        0 <= bone,
        other != cell,
    ensures
        bone < list@.len() ==> recorded(cells.insert(cell, list), cell, bone) == list@[bone],
        bone >= list@.len() ==> recorded(cells.insert(cell, list), cell, bone) is None,
        recorded(cells.insert(cell, list), other, bone) == recorded(cells, other, bone),
        recorded(cells.remove(cell), cell, bone) is None,
{
}

} // verus!
