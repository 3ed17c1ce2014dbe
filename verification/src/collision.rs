//! Which bone capsules are tested against each other, which contacts are
//! reported, and what a scan for penetrations finds.
use vstd::prelude::*;
use crate::limits;
use crate::listing;
use crate::scalar;
use crate::scalar::Scalar;
use crate::skeleton::Skeleton;

verus! {

/// Push-out iterations when nothing else is asked for.
pub const AVOID_ITERATIONS: usize = 12;

/// Settings of the push-out.
#[derive(Clone, Copy, Debug, PartialEq, Eq, Structural)]
pub struct AvoidParams {
    /// Most push-out steps.
    pub iterations: usize,
    /// Scale of each rotation.
    pub step: Scalar,
    /// Penetrations up to this depth are let be.
    pub margin: Scalar,
}

impl Default for AvoidParams {
    /// The settings when nothing else is asked for.
    fn default() -> (p: AvoidParams)
        ensures
            p == (AvoidParams {
                iterations: AVOID_ITERATIONS,
                step: Scalar::one(),
                margin: Scalar::zero(),
            }),
    {
        AvoidParams { iterations: AVOID_ITERATIONS, step: Scalar::one(), margin: Scalar::zero() }
    }
}

impl AvoidParams {
    /// The link of the chain up to which the next step rotates: the one that is
    /// deepest inside an obstacle. `deepest` counts pairs of a link and one of
    /// `obstacles` obstacles, link by link. None once the steps are used up or
    /// nothing is left to push out.
    pub fn next_push(&self, done: usize, deepest: Option<usize>, obstacles: usize) -> (r: Option<usize>)
        requires
            obstacles > 0,
        ensures
            r == (match deepest {
                Some(pair) if done < self.iterations => Some((pair / obstacles) as usize),
                _ => None,
            }),
            r is Some <==> deepest is Some && done < self.iterations,
            r matches Some(link) ==> link * obstacles <= deepest->0 < (link + 1) * obstacles,
    {
        match deepest {
            Some(pair) => if done < self.iterations {
                proof {
                    let link = pair / obstacles;
                    assert(link * obstacles <= pair < (link + 1) * obstacles) by (nonlinear_arith)
                        requires
                            link == pair / obstacles,
                            obstacles > 0,
                    ;
                }
                Some(pair / obstacles)
            } else {
                None
            },
            None => None,
        }
    }
}

/// Length below which a bone has no capsule: the bit pattern of a hundred
/// thousandth.
pub const MIN_CAPSULE_BITS: u32 = 0x3727_C5AC;

/// The children of a bone.
pub open spec fn children_of(skeleton: Skeleton, i: int) -> Seq<int> {
    listing::indices_where(
        skeleton.bones@.len(),
        |j: int| skeleton.bones@[j].parent == Some(i as usize),
    )
}

/// The bone at whose head a bone's capsule ends: its first child.
pub open spec fn capsule_end(skeleton: Skeleton, i: int) -> Option<usize> {
    if children_of(skeleton, i).len() > 0 {
        Some(children_of(skeleton, i)[0] as usize)
    } else {
        None
    }
}

/// Find the bone at whose head the capsule of bone `i` ends.
pub fn first_child(skeleton: &Skeleton, i: usize) -> (r: Option<usize>)
    ensures
        r == capsule_end(*skeleton, i as int),
{
    let children = skeleton.children(i);
    if children.len() > 0 {
        Some(children[0])
    } else {
        None
    }
}

/// Whether a bone has a capsule, given its end and its length.
pub fn has_capsule(end: Option<usize>, length: Scalar) -> (r: bool)
    ensures
        r == (end is Some && !length.spec_lt(Scalar { bits: MIN_CAPSULE_BITS })),
{
    end.is_some() && !length.less(Scalar::from_bits(MIN_CAPSULE_BITS))
}

/// Whether one of two bones is the parent of the other.
pub open spec fn adjacent(skeleton: Skeleton, i: int, j: int) -> bool {
    skeleton.bones@[j].parent == Some(i as usize) || skeleton.bones@[i].parent == Some(j as usize)
}

/// Whether a pair of bones is tested for self-collision: both have capsules and
/// neither is the parent of the other.
pub open spec fn tested(skeleton: Skeleton, capsules: Seq<bool>, i: int, j: int) -> bool {
    0 <= i < j < capsules.len() && capsules[i] && capsules[j] && !adjacent(skeleton, i, j)
}

/// The partners that bone `i` is tested against.
pub open spec fn partners(skeleton: Skeleton, capsules: Seq<bool>, i: int) -> Seq<(usize, usize)> {
    listing::indices_where(capsules.len(), |j: int| tested(skeleton, capsules, i, j)).map_values(
        |j: int| (i as usize, j as usize),
    )
}

/// The pairs of bones that are tested, bone by bone.
pub open spec fn tested_pairs(skeleton: Skeleton, capsules: Seq<bool>) -> Seq<(usize, usize)> {
    crate::bytes::flat(capsules.len(), |i: int| partners(skeleton, capsules, i))
}

/// List the pairs of bones to test for self-collision, in ascending order.
/// `capsules` tells which bones have a capsule.
pub fn collision_pairs(skeleton: &Skeleton, capsules: &Vec<bool>) -> (r: Vec<(usize, usize)>)
    requires
        capsules@.len() == skeleton.bones@.len(),
    ensures
        r@ == tested_pairs(*skeleton, capsules@),
{
    let ghost f = |i: int| partners(*skeleton, capsules@, i);
    let n: usize = capsules.len();
    let mut r: Vec<(usize, usize)> = Vec::new();
    let mut i: usize = 0;
    while i < n
        invariant
            i <= n,
            n == capsules@.len(),
            n == skeleton.bones@.len(),
            f == (|i: int| partners(*skeleton, capsules@, i)),
            r@ == crate::bytes::flat(i as nat, f),
        decreases n - i,
    {
        let ghost start = r@;
        let ghost piece = f(i as int);
        let ghost p = |j: int| tested(*skeleton, capsules@, i as int, j);
        let mut j: usize = 0;
        assert(r@ =~= start + listing::indices_where(0, p).map_values(
            |j: int| (i, j as usize),
        ));
        while j < n
            invariant
                i < n,
                j <= n,
                n == capsules@.len(),
                n == skeleton.bones@.len(),
                p == (|j: int| tested(*skeleton, capsules@, i as int, j)),
                r@ == start + listing::indices_where(j as nat, p).map_values(
                    |j: int| (i, j as usize),
                ),
            decreases n - j,
        {
            let ghost hit = p(j as int);
            let up = match skeleton.bones[j].parent {
                Some(q) => q == i,
                None => false,
            };
            let down = match skeleton.bones[i].parent {
                Some(q) => q == j,
                None => false,
            };
            if i < j && capsules[i] && capsules[j] && !up && !down {
                r.push((i, j));
                assert(r@ =~= start + listing::indices_where((j + 1) as nat, p).map_values(
                    |j: int| (i, j as usize),
                ));
            }
            j += 1;
        }
        assert(piece =~= listing::indices_where(n as nat, p).map_values(|j: int| (i, j as usize)));
        i += 1;
    }
    r
}

proof fn flat_contains<T>(n: nat, f: spec_fn(int) -> Seq<T>, x: T)
    ensures
        crate::bytes::flat(n, f).contains(x) <==> exists|i: int|
            0 <= i < n && (#[trigger] f(i)).contains(x),
    decreases n,
{
    if n > 0 {
        flat_contains((n - 1) as nat, f, x);
        let front = crate::bytes::flat((n - 1) as nat, f);
        let back = f(n - 1);
        let all = front + back;
        if front.contains(x) {
            assert(all[front.index_of(x)] == x);
        }
        if back.contains(x) {
            assert(all[front.len() + back.index_of(x)] == x);
        }
        if all.contains(x) {
            let k = all.index_of(x);
            if k < front.len() {
                assert(front[k] == x);
            } else {
                assert(back[k - front.len()] == x);
                assert(f(n - 1).contains(x));
            }
        }
    }
}

/// A pair is listed exactly if it is in ascending order, both bones have
/// capsules, and neither is the parent of the other.
pub proof fn pair_listed_iff_tested(skeleton: Skeleton, capsules: Seq<bool>, i: usize, j: usize)
    requires
        capsules.len() <= usize::MAX,
    ensures
        tested_pairs(skeleton, capsules).contains((i, j)) <==> tested(
            skeleton,
            capsules,
            i as int,
            j as int,
        ),
{
    let f = |i: int| partners(skeleton, capsules, i);
    flat_contains(capsules.len(), f, (i, j));
    let p = |k: int| tested(skeleton, capsules, i as int, k);
    let list = listing::indices_where(capsules.len(), p);
    listing::listed_iff_satisfied(capsules.len(), p, j as int);
    if tested(skeleton, capsules, i as int, j as int) {
        assert(p(j as int));
        let k = list.index_of(j as int);
        assert(partners(skeleton, capsules, i as int)[k] == (i, j));
        assert(f(i as int).contains((i, j)));
    }
    if exists|a: int| 0 <= a < capsules.len() && (#[trigger] f(a)).contains((i, j)) {
        let a = choose|a: int| 0 <= a < capsules.len() && (#[trigger] f(a)).contains((i, j));
        let q = |k: int| tested(skeleton, capsules, a, k);
        let row = listing::indices_where(capsules.len(), q);
        listing::listed_ascending(capsules.len(), q);
        let k = partners(skeleton, capsules, a).index_of((i, j));
        assert(partners(skeleton, capsules, a)[k] == (a as usize, row[k] as usize));
        assert(q(row[k]));
    }
}

/// Whether a pair of bones comes before another: by the first bone, then by the
/// second.
pub open spec fn comes_before(a: (usize, usize), b: (usize, usize)) -> bool {
    a.0 < b.0 || a.0 == b.0 && a.1 < b.1
}

proof fn first_pairs_ascend(skeleton: Skeleton, capsules: Seq<bool>, n: nat)
    requires
        n <= capsules.len() <= usize::MAX,
    ensures
        ({
            let list = crate::bytes::flat(n, |i: int| partners(skeleton, capsules, i));
            &&& forall|a: int| 0 <= a < list.len() ==> (#[trigger] list[a]).0 < n
            &&& forall|a: int, b: int|
                0 <= a < b < list.len() ==> comes_before(#[trigger] list[a], #[trigger] list[b])
        }),
    decreases n,
{
    if n > 0 {
        let f = |i: int| partners(skeleton, capsules, i);
        first_pairs_ascend(skeleton, capsules, (n - 1) as nat);
        let front = crate::bytes::flat((n - 1) as nat, f);
        let row = listing::indices_where(
            capsules.len(),
            |j: int| tested(skeleton, capsules, n - 1, j),
        );
        listing::listed_ascending(capsules.len(), |j: int| tested(skeleton, capsules, n - 1, j));
        let list = crate::bytes::flat(n, f);
        assert(list == front + f(n - 1));
        assert forall|a: int| 0 <= a < list.len() implies (#[trigger] list[a]).0 < n by {
            if a < front.len() {
                assert(list[a] == front[a]);
            } else {
                assert(list[a] == ((n - 1) as usize, row[a - front.len()] as usize));
            }
        }
        assert forall|a: int, b: int| 0 <= a < b < list.len() implies comes_before(
            #[trigger] list[a],
            #[trigger] list[b],
        ) by {
            if b < front.len() {
                assert(list[a] == front[a] && list[b] == front[b]);
            } else {
                assert(list[b] == ((n - 1) as usize, row[b - front.len()] as usize));
                if a < front.len() {
                    assert(list[a] == front[a]);
                } else {
                    assert(list[a] == ((n - 1) as usize, row[a - front.len()] as usize));
                    assert(row[a - front.len()] < row[b - front.len()]);
                }
            }
        }
    }
}

/// The tested pairs are listed in ascending order, each of them once.
pub proof fn pairs_ascend(skeleton: Skeleton, capsules: Seq<bool>, a: int, b: int)
    requires
        capsules.len() <= usize::MAX,
        0 <= a < b < tested_pairs(skeleton, capsules).len(),
    ensures
        comes_before(tested_pairs(skeleton, capsules)[a], tested_pairs(skeleton, capsules)[b]),
{
    first_pairs_ascend(skeleton, capsules, capsules.len());
}

// ── contacts ──────────────────────────────────────────────────────────────────

/// A contact of two capsules that go into each other.
#[derive(Clone, Copy, Debug, PartialEq, Eq)]
pub struct Contact {
    /// Unit vector from the surface of the first capsule toward the second.
    pub normal: [Scalar; 3],
    /// How deep they go into each other.
    pub depth: Scalar,
    /// A point midway inside the overlap.
    pub point: [Scalar; 3],
}

/// What is reported of the first `n` pairs: those in contact, in order.
pub open spec fn reported(
    pairs: Seq<(usize, usize)>,
    contacts: Seq<Option<Contact>>,
    n: nat,
) -> Seq<(usize, usize, Contact)>
    decreases n,
{
    if n == 0 {
        Seq::empty()
    } else {
        let before = reported(pairs, contacts, (n - 1) as nat);
        match contacts[n - 1] {
            Some(c) => before.push((pairs[n - 1].0, pairs[n - 1].1, c)),
            None => before,
        }
    }
}

/// Report the bones that go into each other. `pairs` are those that were
/// tested, and `contacts` holds what each test found.
pub fn self_collisions(pairs: &Vec<(usize, usize)>, contacts: &Vec<Option<Contact>>) -> (r: Vec<
    (usize, usize, Contact),
>)
    requires
        contacts@.len() == pairs@.len(),
    ensures
        r@ == reported(pairs@, contacts@, pairs@.len()),
{
    let mut r: Vec<(usize, usize, Contact)> = Vec::new();
    let mut n: usize = 0;
    while n < pairs.len()
        invariant
            n <= pairs@.len(),
            contacts@.len() == pairs@.len(),
            r@ == reported(pairs@, contacts@, n as nat),
        decreases pairs@.len() - n,
    {
        if let Some(c) = contacts[n] {
            r.push((pairs[n].0, pairs[n].1, c));
        }
        n += 1;
    }
    r
}

/// Whether some test found a contact.
pub fn is_self_colliding(contacts: &Vec<Option<Contact>>) -> (r: bool)
    ensures
        r == exists|k: int| 0 <= k < contacts@.len() && (#[trigger] contacts@[k]) is Some,
{
    let mut k: usize = 0;
    while k < contacts.len()
        invariant
            k <= contacts@.len(),
            forall|j: int| 0 <= j < k ==> (#[trigger] contacts@[j]) is None,
        decreases contacts@.len() - k,
    {
        if contacts[k].is_some() {
            assert(contacts@[k as int] is Some);
            return true;
        }
        k += 1;
    }
    false
}

/// Whether an entry of a report is that of pair `k`.
pub open spec fn is_report_of(
    entry: (usize, usize, Contact),
    pairs: Seq<(usize, usize)>,
    contacts: Seq<Option<Contact>>,
    k: int,
) -> bool {
    contacts[k] == Some(entry.2) && pairs[k] == (entry.0, entry.1)
}

/// Whether an entry of a report is that of one of the first `n` pairs.
spec fn is_report(
    entry: (usize, usize, Contact),
    pairs: Seq<(usize, usize)>,
    contacts: Seq<Option<Contact>>,
    n: nat,
) -> bool {
    exists|k: int| 0 <= k < n && #[trigger] is_report_of(entry, pairs, contacts, k)
}

proof fn reports_are_of_pairs(pairs: Seq<(usize, usize)>, contacts: Seq<Option<Contact>>, n: nat)
    requires
        n <= pairs.len() == contacts.len(),
        forall|a: int, b: int|
            0 <= a < b < pairs.len() ==> comes_before(#[trigger] pairs[a], #[trigger] pairs[b]),
    ensures
        ({
            let list = reported(pairs, contacts, n);
            &&& forall|a: int|
                0 <= a < list.len() ==> is_report(#[trigger] list[a], pairs, contacts, n)
            &&& forall|k: int|
                0 <= k < n && (#[trigger] contacts[k]) is Some ==> list.contains(
                    (pairs[k].0, pairs[k].1, contacts[k]->0),
                )
            &&& forall|a: int, b: int|
                0 <= a < b < list.len() ==> comes_before(
                    ((#[trigger] list[a]).0, list[a].1),
                    ((#[trigger] list[b]).0, list[b].1),
                )
        }),
    decreases n,
{
    if n > 0 {
        reports_are_of_pairs(pairs, contacts, (n - 1) as nat);
        let before = reported(pairs, contacts, (n - 1) as nat);
        let list = reported(pairs, contacts, n);
        assert forall|a: int| 0 <= a < list.len() implies is_report(
            #[trigger] list[a],
            pairs,
            contacts,
            n,
        ) by {
            if a < before.len() {
                assert(list[a] == before[a]);
                assert(is_report(before[a], pairs, contacts, (n - 1) as nat));
                let k = choose|k: int|
                    0 <= k < n - 1 && #[trigger] is_report_of(before[a], pairs, contacts, k);
                assert(is_report_of(list[a], pairs, contacts, k));
            } else {
                assert(is_report_of(list[a], pairs, contacts, n - 1));
            }
        }
        assert forall|k: int| 0 <= k < n && (#[trigger] contacts[k]) is Some implies list.contains(
            (pairs[k].0, pairs[k].1, contacts[k]->0),
        ) by {
            let entry = (pairs[k].0, pairs[k].1, contacts[k]->0);
            if k < n - 1 {
                assert(list[before.index_of(entry)] == entry);
            } else {
                assert(list[list.len() - 1] == entry);
            }
        }
        assert forall|a: int, b: int| 0 <= a < b < list.len() implies comes_before(
            ((#[trigger] list[a]).0, list[a].1),
            ((#[trigger] list[b]).0, list[b].1),
        ) by {
            assert(list[a] == before[a]);
            if b < before.len() {
                assert(list[b] == before[b]);
            } else {
                assert(is_report(before[a], pairs, contacts, (n - 1) as nat));
                let k = choose|k: int|
                    0 <= k < n - 1 && #[trigger] is_report_of(before[a], pairs, contacts, k);
                assert(comes_before(pairs[k], pairs[n - 1]));
            }
        }
    }
}

/// Exactly the contacts of tested pairs are reported: those of two bones in
/// ascending order that both have capsules and of which neither is the parent
/// of the other. `contact` says what the test of two bones finds.
pub proof fn contact_reported_iff_tested(
    skeleton: Skeleton,
    capsules: Seq<bool>,
    contact: spec_fn(usize, usize) -> Option<Contact>,
    entry: (usize, usize, Contact),
)
    requires
        capsules.len() <= usize::MAX,
    ensures
        ({
            let pairs = tested_pairs(skeleton, capsules);
            let contacts = pairs.map_values(|p: (usize, usize)| contact(p.0, p.1));
            reported(pairs, contacts, pairs.len()).contains(entry) <==> tested(
                skeleton,
                capsules,
                entry.0 as int,
                entry.1 as int,
            ) && contact(entry.0, entry.1) == Some(entry.2)
        }),
{
    let pairs = tested_pairs(skeleton, capsules);
    let contacts = pairs.map_values(|p: (usize, usize)| contact(p.0, p.1));
    let list = reported(pairs, contacts, pairs.len());
    first_pairs_ascend(skeleton, capsules, capsules.len());
    reports_are_of_pairs(pairs, contacts, pairs.len());
    pair_listed_iff_tested(skeleton, capsules, entry.0, entry.1);
    if list.contains(entry) {
        let a = list.index_of(entry);
        assert(is_report(list[a], pairs, contacts, pairs.len()));
        let k = choose|k: int|
            0 <= k < pairs.len() && #[trigger] is_report_of(list[a], pairs, contacts, k);
        assert(pairs[k] == (entry.0, entry.1));
    }
    if pairs.contains((entry.0, entry.1)) && contact(entry.0, entry.1) == Some(entry.2) {
        let k = pairs.index_of((entry.0, entry.1));
        assert(contacts[k] is Some);
    }
}

/// A report is in ascending order of its pairs, so that none occurs twice.
pub proof fn reports_ascend(
    skeleton: Skeleton,
    capsules: Seq<bool>,
    contacts: Seq<Option<Contact>>,
    a: int,
    b: int,
)
    requires
        capsules.len() <= usize::MAX,
        contacts.len() == tested_pairs(skeleton, capsules).len(),
        0 <= a < b < reported(
            tested_pairs(skeleton, capsules),
            contacts,
            contacts.len(),
        ).len(),
    ensures
        ({
            let list = reported(tested_pairs(skeleton, capsules), contacts, contacts.len());
            comes_before((list[a].0, list[a].1), (list[b].0, list[b].1))
        }),
{
    first_pairs_ascend(skeleton, capsules, capsules.len());
    reports_are_of_pairs(tested_pairs(skeleton, capsules), contacts, contacts.len());
}

/// Something is reported exactly if some test found a contact.
pub proof fn colliding_iff_reported(
    pairs: Seq<(usize, usize)>,
    contacts: Seq<Option<Contact>>,
    n: nat,
)
    requires
        n <= contacts.len(),
    ensures
        reported(pairs, contacts, n).len() > 0 <==> exists|k: int|
            0 <= k < n && (#[trigger] contacts[k]) is Some,
    decreases n,
{
    if n > 0 {
        colliding_iff_reported(pairs, contacts, (n - 1) as nat);
        assert(contacts[n - 1] is Some || contacts[n - 1] is None);
        if exists|k: int| 0 <= k < n - 1 && (#[trigger] contacts[k]) is Some {
            let k = choose|k: int| 0 <= k < n - 1 && (#[trigger] contacts[k]) is Some;
            assert(0 <= k < n && contacts[k] is Some);
        }
    }
}

// ── closest points ────────────────────────────────────────────────────────────

/// Squared length at and below which a segment counts as a point, and below
/// which two segments count as parallel: the bit pattern of a ten billionth.
pub const POINT_BITS: u32 = 0x2EDB_E6FF;

/// Length at and below which two closest points coincide: the bit pattern of a
/// millionth.
pub const TOUCH_BITS: u32 = 0x3586_37BD;

/// The dot products of two segments, and what follows from them. Quotients by
/// zero may be anything: they are not read.
#[derive(Clone, Copy, Debug, PartialEq, Eq, Structural)]
pub struct SegmentPair {
    /// Squared length of the first segment.
    pub first: Scalar,
    /// Squared length of the second segment.
    pub second: Scalar,
    /// Where the start of the first segment falls on the second.
    pub on_second: Scalar,
    /// Where the start of the second segment falls on the first.
    pub on_first: Scalar,
    /// Where the end of the second segment falls on the first.
    pub on_first_from_end: Scalar,
    /// How far the segments are from parallel.
    pub spread: Scalar,
    /// Where the lines through both come closest, on the first.
    pub crossing: Scalar,
}

/// What is known of the closest points: both places on their segments, or the
/// place on the first one, from which the other follows.
#[derive(Clone, Copy, Debug, PartialEq, Eq, Structural)]
pub enum Closest {
    Both(Scalar, Scalar),
    First(Scalar),
}

/// A number moved into the range from zero to one.
pub open spec fn unit_clamped(x: Scalar) -> Scalar {
    limits::clamped(x, Scalar::zero(), Scalar::one())
}

/// Whether a squared length is that of a point.
pub open spec fn is_point(squared: Scalar) -> bool {
    squared.spec_le(Scalar { bits: POINT_BITS })
}

/// The first step: points are compared at once; two proper segments start from
/// where their lines come closest, or from the start where they are parallel.
pub open spec fn closest_start(p: SegmentPair) -> Closest {
    if is_point(p.first) && is_point(p.second) {
        Closest::Both(Scalar::zero(), Scalar::zero())
    } else if is_point(p.first) {
        Closest::Both(Scalar::zero(), unit_clamped(p.on_second))
    } else if is_point(p.second) {
        Closest::Both(unit_clamped(p.on_first), Scalar::zero())
    } else if (Scalar { bits: POINT_BITS }).spec_lt(p.spread) {
        Closest::First(unit_clamped(p.crossing))
    } else {
        Closest::First(Scalar::zero())
    }
}

/// The second step: `t` is where the first place falls on the second segment; if
/// that is beyond an end, the end is taken and the first place is found anew.
pub open spec fn closest_end(p: SegmentPair, s: Scalar, t: Scalar) -> (Scalar, Scalar) {
    if t.spec_lt(Scalar::zero()) {
        (unit_clamped(p.on_first), Scalar::zero())
    } else if Scalar::one().spec_lt(t) {
        (unit_clamped(p.on_first_from_end), Scalar::one())
    } else {
        (s, t)
    }
}

/// Take the first step toward the closest points of two segments.
pub fn start_closest(p: &SegmentPair) -> (r: Closest)
    ensures
        r == closest_start(*p),
{
    let point = Scalar::from_bits(POINT_BITS);
    let (zero, one) = (Scalar::zero(), Scalar::one());
    let first_is_point = p.first.at_most(point);
    let second_is_point = p.second.at_most(point);
    if first_is_point && second_is_point {
        Closest::Both(zero, zero)
    } else if first_is_point {
        Closest::Both(zero, limits::clamp_number(p.on_second, zero, one))
    } else if second_is_point {
        Closest::Both(limits::clamp_number(p.on_first, zero, one), zero)
    } else if point.less(p.spread) {
        Closest::First(limits::clamp_number(p.crossing, zero, one))
    } else {
        Closest::First(zero)
    }
}

/// Take the second step toward the closest points of two segments.
pub fn finish_closest(p: &SegmentPair, s: Scalar, t: Scalar) -> (r: (Scalar, Scalar))
    ensures
        r == closest_end(*p, s, t),
{
    let (zero, one) = (Scalar::zero(), Scalar::one());
    if t.less(zero) {
        (limits::clamp_number(p.on_first, zero, one), zero)
    } else if one.less(t) {
        (limits::clamp_number(p.on_first_from_end, zero, one), one)
    } else {
        (s, t)
    }
}

/// A place on a segment.
pub open spec fn on_segment(x: Scalar) -> bool {
    Scalar::zero().spec_le(x) && x.spec_le(Scalar::one())
}

/// Closest points lie on their segments, whichever way they were found.
pub proof fn closest_points_lie_on_segments(p: SegmentPair, t: Scalar)
    requires
        !p.on_second.nan() && !p.on_first.nan() && !p.on_first_from_end.nan() && !p.crossing.nan()
            && !t.nan(),
    ensures
        match closest_start(p) {
            Closest::Both(s, t) => on_segment(s) && on_segment(t),
            Closest::First(s) => on_segment(s) && on_segment(closest_end(p, s, t).0)
                && on_segment(closest_end(p, s, t).1),
        },
{
}

/// A place on a segment that lies nearest to a place on its line.
pub open spec fn nearest_place(r: Scalar, x: Scalar) -> bool {
    scalar::is_nearest(r, x, Scalar::zero(), Scalar::one())
}

/// Where the second place is taken at an end of its segment, the first place is
/// the nearest one to where that very end falls: to where the start falls for
/// the start, and to where the end falls for the end. Anywhere else both places
/// stay.
pub proof fn ends_are_met_where_they_fall(p: SegmentPair, s: Scalar, t: Scalar)
    requires
        !t.nan() && !p.on_first.nan() && !p.on_first_from_end.nan(),
    ensures
        nearest_place(closest_end(p, s, t).1, t),
        t.spec_lt(Scalar::zero()) ==> nearest_place(closest_end(p, s, t).0, p.on_first),
        Scalar::one().spec_lt(t) ==> nearest_place(closest_end(p, s, t).0, p.on_first_from_end),
        Scalar::zero().spec_le(t) && t.spec_le(Scalar::one()) ==> closest_end(p, s, t).0 == s,
{
}

/// Turning the second segment round leaves the first place where it is: the
/// places where its start and its end fall are exchanged, and a place before the
/// start becomes one behind the end.
pub proof fn reversing_a_segment_keeps_the_first_place(
    p: SegmentPair,
    q: SegmentPair,
    s: Scalar,
    t: Scalar,
    turned: Scalar,
)
    requires
        !t.nan() && !turned.nan(),
        q.on_first == p.on_first_from_end,
        q.on_first_from_end == p.on_first,
        t.spec_lt(Scalar::zero()) <==> Scalar::one().spec_lt(turned),
        turned.spec_lt(Scalar::zero()) <==> Scalar::one().spec_lt(t),
    ensures
        closest_end(p, s, t).0 == closest_end(q, s, turned).0,
{
}

/// Of a point and a segment, the place on the segment is the nearest one to
/// where the point falls; of two proper segments, the first place is the nearest
/// one to where their lines come closest, and their start where they are
/// parallel.
pub proof fn points_are_met_where_they_fall(p: SegmentPair)
    requires
        !p.first.nan() && !p.second.nan() && !p.spread.nan(),
        !p.on_second.nan() && !p.on_first.nan() && !p.crossing.nan(),
    ensures
        ({
            let short = Scalar { bits: POINT_BITS };
            match closest_start(p) {
                Closest::Both(s, t) => {
                    &&& p.first.spec_le(short) || p.second.spec_le(short)
                    &&& p.first.spec_le(short) ==> s.bits == 0
                    &&& p.second.spec_le(short) ==> t.bits == 0
                    &&& short.spec_lt(p.first) ==> nearest_place(s, p.on_first)
                    &&& short.spec_lt(p.second) ==> nearest_place(t, p.on_second)
                },
                Closest::First(s) => {
                    &&& short.spec_lt(p.first) && short.spec_lt(p.second)
                    &&& short.spec_lt(p.spread) ==> nearest_place(s, p.crossing)
                    &&& p.spread.spec_le(short) ==> s.bits == 0
                },
            }
        }),
{
}

/// Two capsules touch if their axes are closer than their radii together.
pub fn touches(distance: Scalar, reach: Scalar) -> (r: bool)
    ensures
        r == distance.spec_lt(reach),
{
    distance.less(reach)
}

/// Whether two closest points are far enough apart to give a direction.
pub fn has_direction(length: Scalar) -> (r: bool)
    ensures
        r == (Scalar { bits: TOUCH_BITS }).spec_lt(length),
{
    Scalar::from_bits(TOUCH_BITS).less(length)
}

// ── penetrations ──────────────────────────────────────────────────────────────

/// Penetrations deeper than the margin among the first `n` depths; `None` marks
/// a pair that does not touch.
pub open spec fn deep_count(depths: Seq<Option<Scalar>>, margin: Scalar, n: nat) -> nat
    decreases n,
{
    if n == 0 {
        0
    } else {
        deep_count(depths, margin, (n - 1) as nat) + (if depths[n - 1] is Some && margin.spec_lt(
            depths[n - 1]->0,
        ) {
            1nat
        } else {
            0nat
        })
    }
}

/// The deepest of them; of equally deep ones the first.
pub open spec fn deepest_of(depths: Seq<Option<Scalar>>, margin: Scalar, n: nat) -> Option<int>
    decreases n,
{
    if n == 0 {
        None
    } else {
        let best = deepest_of(depths, margin, (n - 1) as nat);
        if depths[n - 1] is Some && margin.spec_lt(depths[n - 1]->0) && (best is None
            || depths[best->0]->0.spec_lt(depths[n - 1]->0)) {
            Some(n - 1)
        } else {
            best
        }
    }
}

/// Count the penetrations deeper than the margin and find the deepest.
pub fn count_penetrations(depths: &Vec<Option<Scalar>>, margin: Scalar) -> (r: (usize, Option<usize>))
    ensures
        r.0 == deep_count(depths@, margin, depths@.len()),
        match r.1 {
            Some(k) => deepest_of(depths@, margin, depths@.len()) == Some(k as int),
            None => deepest_of(depths@, margin, depths@.len()) is None,
        },
{
    let mut count: usize = 0;
    let mut best: Option<usize> = None;
    let mut n: usize = 0;
    while n < depths.len()
        invariant
            n <= depths@.len(),
            count <= n,
            count == deep_count(depths@, margin, n as nat),
            match deepest_of(depths@, margin, n as nat) {
                Some(k) => 0 <= k < n && best is Some && best->0 == k && depths@[k] is Some,
                None => best is None,
            },
        decreases depths@.len() - n,
    {
        if let Some(d) = depths[n] {
            if margin.less(d) {
                count += 1;
                let deeper = match best {
                    Some(k) => match depths[k] {
                        Some(b) => b.less(d),
                        None => true,
                    },
                    None => true,
                };
                if deeper {
                    best = Some(n);
                }
            }
        }
        n += 1;
    }
    (count, best)
}

/// There is a deepest penetration exactly if there is a penetration, and none
/// is deeper.
pub proof fn deepest_is_deepest(depths: Seq<Option<Scalar>>, margin: Scalar, n: nat)
    requires
        n <= depths.len(),
    ensures
        deepest_of(depths, margin, n) is Some <==> deep_count(depths, margin, n) > 0,
        deepest_of(depths, margin, n) is None ==> forall|j: int|
            0 <= j < n && (#[trigger] depths[j]) is Some ==> !margin.spec_lt(depths[j]->0),
        deepest_of(depths, margin, n) matches Some(k) ==> 0 <= k < n && depths[k] is Some
            && margin.spec_lt(depths[k]->0) && forall|j: int|
            0 <= j < n && (#[trigger] depths[j]) is Some && margin.spec_lt(depths[j]->0)
                ==> depths[j]->0.spec_le(depths[k]->0),
    decreases n,
{
    if n > 0 {
        deepest_is_deepest(depths, margin, (n - 1) as nat);
        if let Some(k) = deepest_of(depths, margin, n) {
            assert forall|j: int|
                0 <= j < n && (#[trigger] depths[j]) is Some && margin.spec_lt(
                    depths[j]->0,
                ) implies depths[j]->0.spec_le(depths[k]->0) by {
                if j < n - 1 && k == n - 1 {
                    let best = deepest_of(depths, margin, (n - 1) as nat);
                    assert(best is Some);
                    assert(depths[j]->0.spec_le(depths[best->0]->0));
                }
            }
        }
    }
}

/// A capsule ends at the head of the first bone that hangs on its bone; a bone
/// that nothing hangs on has no end.
pub proof fn capsules_end_at_the_first_child(skeleton: Skeleton, i: int, j: int)
    requires
        skeleton.bones@.len() <= usize::MAX,
        0 <= j < skeleton.bones@.len(),
        skeleton.bones@[j].parent == Some(i as usize),
    ensures
        capsule_end(skeleton, i) matches Some(c) && c <= j && skeleton.bones@[c as int].parent
            == Some(i as usize),
{
    let p = |j: int| skeleton.bones@[j].parent == Some(i as usize);
    let list = children_of(skeleton, i);
    listing::listed_iff_satisfied(skeleton.bones@.len(), p, j);
    listing::listed_ascending(skeleton.bones@.len(), p);
    let k = list.index_of(j);
    assert(list[k] == j);
    assert(p(list[0]));
}

/// A bone that no bone names as its parent has no capsule end.
pub proof fn childless_bones_have_no_end(skeleton: Skeleton, i: int)
    requires
        forall|j: int|
            0 <= j < skeleton.bones@.len() ==> (#[trigger] skeleton.bones@[j]).parent != Some(
                i as usize,
            ),
    ensures
        capsule_end(skeleton, i) is None,
{
    let p = |j: int| skeleton.bones@[j].parent == Some(i as usize);
    listing::listed_ascending(skeleton.bones@.len(), p);
    if children_of(skeleton, i).len() > 0 {
        let c = children_of(skeleton, i)[0];
        assert(p(c));
        assert(skeleton.bones@[c].parent == Some(i as usize));
    }
}

/// Which of two bones is named first does not matter to whether they are
/// adjacent; a bone is adjacent to its parent, and to no bone that is neither
/// its parent nor its child.
pub proof fn neighbours_are_mutual(skeleton: Skeleton, i: usize, j: usize)
    ensures
        adjacent(skeleton, i as int, j as int) == adjacent(skeleton, j as int, i as int),
        skeleton.bones@[i as int].parent == Some(j) ==> adjacent(skeleton, i as int, j as int),
        skeleton.bones@[i as int].parent != Some(j) && skeleton.bones@[j as int].parent != Some(i)
            ==> !adjacent(skeleton, i as int, j as int),
{
}

/// Two bones are tested as soon as both have capsules and neither is the other's
/// parent, in one order and not in the other.
pub proof fn pairs_are_tested_once(
    skeleton: Skeleton,
    capsules: Seq<bool>,
    i: usize,
    j: usize,
)
    requires
        i != j,
        i < capsules.len(),
        j < capsules.len(),
    ensures
        !(tested(skeleton, capsules, i as int, j as int) && tested(
            skeleton,
            capsules,
            j as int,
            i as int,
        )),
        tested(skeleton, capsules, i as int, j as int) || tested(
            skeleton,
            capsules,
            j as int,
            i as int,
        ) <==> capsules[i as int] && capsules[j as int] && skeleton.bones@[i as int].parent
            != Some(j) && skeleton.bones@[j as int].parent != Some(i),
        tested(skeleton, capsules, i as int, j as int) ==> i < j,
{
}

/// Penetrations are counted one by one, and the first of equally deep ones is
/// the deepest: those before it are less deep.
pub proof fn penetrations_are_counted(depths: Seq<Option<Scalar>>, margin: Scalar, n: nat, j: int)
    requires
        n <= depths.len(),
    ensures
        deep_count(depths, margin, n) == listing::indices_where(
            n,
            |k: int| depths[k] is Some && margin.spec_lt(depths[k]->0),
        ).len(),
        deepest_of(depths, margin, n) matches Some(k) && 0 <= j < k && depths[j] is Some
            && margin.spec_lt(depths[j]->0) ==> depths[j]->0.spec_lt(
            depths[deepest_of(depths, margin, n)->0]->0,
        ),
    decreases n,
{
    if n > 0 {
        penetrations_are_counted(depths, margin, (n - 1) as nat, j);
        deepest_is_deepest(depths, margin, (n - 1) as nat);
    }
}

} // verus!
