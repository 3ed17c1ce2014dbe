//! The checks behind the C interface of the solver: status codes, and which
//! skeletons and chains are accepted.
use vstd::prelude::*;
use crate::reading;
use crate::scalar::Scalar;
use crate::scalar;
use crate::skeleton::{Bone, Matrix, Skeleton};
use crate::skeleton;
use crate::text;

verus! {

/// Parent number of a root.
pub const CRF_NO_PARENT: u64 = u64::MAX;

/// Success.
pub const CRF_OK: i32 = 0;

/// A required pointer was null.
pub const CRF_ERR_NULL_POINTER: i32 = 1;

/// A length or an index was out of range.
pub const CRF_ERR_INVALID_ARG: i32 = 2;

/// The skeleton is not in topological order.
pub const CRF_ERR_BAD_SKELETON: i32 = 3;

/// The solver failed inside.
pub const CRF_ERR_PANIC: i32 = 4;

/// Squared axis length below which a hinge limit is disabled: the bit pattern
/// of a trillionth.
pub const MIN_AXIS_BITS: u32 = 0x2B8C_BCCC;

/// Check the buffers of a request before they are read.
pub fn check_buffers(some_null: bool, bone_count: usize, chain_len: usize) -> (status: i32)
    ensures
        status == (if some_null {
            CRF_ERR_NULL_POINTER
        } else if bone_count == 0 || chain_len == 0 {
            CRF_ERR_INVALID_ARG
        } else {
            CRF_OK
        }),
        status == 0 <==> !some_null && bone_count > 0 && chain_len > 0,
        status == 1 <==> some_null,
{
    if some_null {
        CRF_ERR_NULL_POINTER
    } else if bone_count == 0 || chain_len == 0 {
        CRF_ERR_INVALID_ARG
    } else {
        CRF_OK
    }
}

/// Whether parent number `i` is acceptable: that of a root or of an earlier
/// bone.
pub open spec fn parent_ok(parents: Seq<u64>, i: int) -> bool {
    parents[i] == CRF_NO_PARENT || (parents[i] as usize) < i
}

/// Whether a bone number names one of `bones` bones.
pub open spec fn bone_ok(number: u64, bones: nat) -> bool {
    number != CRF_NO_PARENT && (number as usize) < bones
}

/// The status of a request.
pub open spec fn request_status(parents: Seq<u64>, chain: Seq<u64>, effector: u64) -> i32 {
    if exists|i: int| 0 <= i < parents.len() && !#[trigger] parent_ok(parents, i) {
        CRF_ERR_BAD_SKELETON
    } else if exists|k: int| 0 <= k < chain.len() && !bone_ok(#[trigger] chain[k], parents.len()) {
        CRF_ERR_INVALID_ARG
    } else if !bone_ok(effector, parents.len()) {
        CRF_ERR_INVALID_ARG
    } else {
        CRF_OK
    }
}

/// A request that can be solved.
pub struct ChainRequest {
    pub skeleton: Skeleton,
    pub chain: Vec<usize>,
    pub effector: usize,
}

/// Whether a skeleton is the one that flat arrays describe.
pub open spec fn skeleton_from(bones: Seq<Bone>, parents: Seq<u64>, binds: Seq<Matrix>) -> bool {
    &&& bones.len() == parents.len()
    &&& forall|i: int|
        0 <= i < bones.len() ==> {
            &&& (#[trigger] bones[i]).name@ == "b"@ + text::decimal(i as nat)
            &&& bones[i].parent == (if parents[i] == CRF_NO_PARENT {
                None
            } else {
                Some(parents[i] as usize)
            })
            &&& bones[i].local_bind == binds[i]
        }
}

/// Check a request and rebuild its skeleton. The error is a status code.
pub fn read_request(
    parents: &Vec<u64>,
    binds: &Vec<Matrix>,
    chain: &Vec<u64>,
    effector: u64,
) -> (r: Result<ChainRequest, i32>)
    requires
        binds@.len() == parents@.len(),
    ensures
        match r {
            Ok(q) => {
                &&& request_status(parents@, chain@, effector) == CRF_OK
                &&& skeleton_from(q.skeleton.bones@, parents@, binds@)
                &&& skeleton::topological(q.skeleton.bones@)
                &&& q.chain@ == chain@.map_values(|c: u64| c as usize)
                &&& forall|k: int| 0 <= k < q.chain@.len() ==> #[trigger] q.chain@[k] < parents@.len()
                &&& q.effector == effector as usize
                &&& q.effector < parents@.len()
            },
            Err(status) => status != CRF_OK && status == request_status(parents@, chain@, effector),
        },
{
    let count: usize = parents.len();
    let mut bones: Vec<Bone> = Vec::new();
    let mut i: usize = 0;
    while i < count
        invariant
            i <= count,
            count == parents@.len(),
            binds@.len() == count,
            forall|j: int| 0 <= j < i ==> #[trigger] parent_ok(parents@, j),
            bones@.len() == i,
            forall|j: int|
                0 <= j < i ==> {
                    &&& (#[trigger] bones@[j]).name@ == "b"@ + text::decimal(j as nat)
                    &&& bones@[j].parent == (if parents@[j] == CRF_NO_PARENT {
                        None
                    } else {
                        Some(parents@[j] as usize)
                    })
                    &&& bones@[j].local_bind == binds@[j]
                },
        decreases count - i,
    {
        let number: u64 = parents[i];
        let mut parent: Option<usize> = None;
        if number != CRF_NO_PARENT {
            let p: usize = number as usize;
            if p >= count || p >= i {
                assert(!parent_ok(parents@, i as int));
                return Err(CRF_ERR_BAD_SKELETON);
            }
            parent = Some(p);
        }
        assert(parent_ok(parents@, i as int));
        let mut name = "b".to_owned();
        text::push_decimal(&mut name, i as u64);
        bones.push(Bone { name, parent, local_bind: binds[i] });
        i += 1;
    }
    let mut list: Vec<usize> = Vec::new();
    let mut k: usize = 0;
    while k < chain.len()
        invariant
            k <= chain@.len(),
            count == parents@.len(),
            forall|j: int| 0 <= j < parents@.len() ==> #[trigger] parent_ok(parents@, j),
            forall|j: int| 0 <= j < k ==> bone_ok(#[trigger] chain@[j], count as nat),
            list@ =~= chain@.take(k as int).map_values(|c: u64| c as usize),
            forall|j: int| 0 <= j < k ==> #[trigger] list@[j] < count,
        decreases chain@.len() - k,
    {
        let number: u64 = chain[k];
        let c: usize = number as usize;
        if number == CRF_NO_PARENT || c >= count {
            assert(!bone_ok(chain@[k as int], count as nat));
            return Err(CRF_ERR_INVALID_ARG);
        }
        list.push(c);
        k += 1;
    }
    assert(chain@.take(k as int) =~= chain@);
    let tip: usize = effector as usize;
    if effector == CRF_NO_PARENT || tip >= count {
        return Err(CRF_ERR_INVALID_ARG);
    }
    proof {
        assert forall|j: int| 0 <= j < bones@.len() implies !skeleton::misplaced(bones@, j) by {
            let b = bones@[j];
            assert(parent_ok(parents@, j));
        }
    }
    Ok(ChainRequest { skeleton: Skeleton { bones }, chain: list, effector: tip })
}

/// Number of solver iterations for a requested number: at least one.
pub fn effective_iterations(requested: i32) -> (r: usize)
    ensures
        r == (if requested < 1 { 1 } else { requested as int }),
        r >= 1 && r >= requested,
        r > 1 ==> r == requested,
{
    if requested < 1 {
        1
    } else {
        requested as usize
    }
}

/// Whether a number is neither infinite nor not a number.
pub open spec fn finite(x: Scalar) -> bool {
    x.magnitude() < scalar::INFINITY_BITS
}

fn is_finite(x: Scalar) -> (r: bool)
    ensures
        r == finite(x),
{
    x.abs().bits < scalar::INFINITY_BITS
}

/// The range of a hinge limit, or none where the axis or the half range is not
/// finite or the axis is too short: from minus to plus the half range.
pub fn hinge_range(axis: [Scalar; 3], half_range: Scalar, axis_length_squared: Scalar) -> (r: Option<
    (Scalar, Scalar),
>)
    ensures
        match r {
            Some((lo, hi)) => {
                &&& finite(axis@[0]) && finite(axis@[1]) && finite(axis@[2]) && finite(half_range)
                &&& !axis_length_squared.spec_lt(Scalar { bits: MIN_AXIS_BITS })
                &&& hi.bits == half_range.magnitude()
                &&& lo.magnitude() == half_range.magnitude() && lo.negative()
                &&& lo.spec_le(half_range) && half_range.spec_le(hi)
                &&& lo.spec_le(Scalar::zero()) && Scalar::zero().spec_le(hi)
                &&& half_range == hi || half_range == lo
            },
            None => !(finite(axis@[0]) && finite(axis@[1]) && finite(axis@[2]) && finite(
                half_range,
            )) || axis_length_squared.spec_lt(Scalar { bits: MIN_AXIS_BITS }),
        },
{
    if !is_finite(axis[0]) || !is_finite(axis[1]) || !is_finite(axis[2]) || !is_finite(half_range)
        || axis_length_squared.less(Scalar::from_bits(MIN_AXIS_BITS)) {
        None
    } else {
        let hi = half_range.abs();
        Some((hi.negated(), hi))
    }
}

/// A request passes exactly if every parent number is that of a root or of an
/// earlier bone and the chain and the effector name bones; a bad parent is told
/// before anything else. Numbers are taken to fit the machine.
pub proof fn requests_pass_exactly_if_sound(parents: Seq<u64>, chain: Seq<u64>, effector: u64)
    requires
        parents.len() <= usize::MAX,
        forall|i: int|
            0 <= i < parents.len() && parents[i] < u64::MAX ==> #[trigger] parents[i] <= usize::MAX,
        forall|k: int|
            0 <= k < chain.len() && chain[k] < u64::MAX ==> #[trigger] chain[k] <= usize::MAX,
        effector < u64::MAX ==> effector <= usize::MAX,
    ensures
        ({
            let status = request_status(parents, chain, effector);
            let parents_sound = forall|i: int|
                0 <= i < parents.len() ==> #[trigger] parents[i] == u64::MAX || parents[i] < i;
            let chain_sound = forall|k: int|
                0 <= k < chain.len() ==> #[trigger] chain[k] < parents.len();
            &&& status == 0 <==> parents_sound && chain_sound && effector < parents.len()
            &&& status == 3 <==> !parents_sound
            &&& status == 2 <==> parents_sound && !(chain_sound && effector < parents.len())
        }),
{
    let parents_sound = forall|i: int|
        0 <= i < parents.len() ==> #[trigger] parents[i] == u64::MAX || parents[i] < i;
    let chain_sound = forall|k: int|
        0 <= k < chain.len() ==> #[trigger] chain[k] < parents.len();
    assert(parents_sound <==> forall|i: int|
        0 <= i < parents.len() ==> #[trigger] parent_ok(parents, i)) by {
        if parents_sound {
            assert forall|i: int| 0 <= i < parents.len() implies #[trigger] parent_ok(
                parents,
                i,
            ) by {
                assert(parents[i] == u64::MAX || parents[i] < i);
            }
        }
        if forall|i: int| 0 <= i < parents.len() ==> #[trigger] parent_ok(parents, i) {
            assert forall|i: int| 0 <= i < parents.len() implies #[trigger] parents[i] == u64::MAX
                || parents[i] < i by {
                assert(parent_ok(parents, i));
            }
        }
    }
    assert forall|k: int| 0 <= k < chain.len() implies bone_ok(#[trigger] chain[k], parents.len())
        == (chain[k] < parents.len()) by {}
}

/// The flat arrays can be read back from a skeleton made of them, and its bone
/// names are all different.
pub proof fn flat_arrays_read_back(bones: Seq<Bone>, parents: Seq<u64>, binds: Seq<Matrix>)
    requires
        skeleton_from(bones, parents, binds),
        binds.len() == parents.len(),
        forall|i: int|
            0 <= i < parents.len() && parents[i] < u64::MAX ==> #[trigger] parents[i] <= usize::MAX,
    ensures
        parents == bones.map_values(
            |b: Bone|
                match b.parent {
                    Some(p) => p as u64,
                    None => u64::MAX,
                },
        ),
        binds == bones.map_values(|b: Bone| b.local_bind),
        forall|i: int, j: int|
            0 <= i < j < bones.len() ==> (#[trigger] bones[i]).name@ != (#[trigger] bones[j]).name@,
{
    let back = bones.map_values(
        |b: Bone|
            match b.parent {
                Some(p) => p as u64,
                None => u64::MAX,
            },
    );
    assert forall|i: int| 0 <= i < parents.len() implies back[i] == parents[i] by {
        let b = bones[i];
        assert(parents[i] < u64::MAX ==> parents[i] <= usize::MAX);
    }
    assert(parents =~= back);
    let stored = bones.map_values(|b: Bone| b.local_bind);
    assert forall|i: int| 0 <= i < binds.len() implies stored[i] == binds[i] by {
        let b = bones[i];
    }
    assert(binds =~= stored);
    assert forall|i: int, j: int| 0 <= i < j < bones.len() implies (#[trigger] bones[i]).name@ != (
    #[trigger] bones[j]).name@ by {
        reading::decimal_reads_back(i as nat);
        reading::decimal_reads_back(j as nat);
        reveal_strlit("b");
        let (a, b) = (bones[i].name@, bones[j].name@);
        assert(a.skip(1) =~= text::decimal(i as nat));
        assert(b.skip(1) =~= text::decimal(j as nat));
    }
}

/// A number is finite exactly if it lies strictly between the infinities.
pub proof fn finite_numbers_lie_between_the_infinities(x: Scalar)
    ensures
        finite(x) <==> (Scalar { bits: 0xFF80_0000 }).spec_lt(x) && x.spec_lt(
            Scalar { bits: 0x7F80_0000 },
        ),
{
}

} // verus!
