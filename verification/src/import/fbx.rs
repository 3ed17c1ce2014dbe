//! FBX import: fan triangulation, and a skeleton with weights from skin
//! clusters.
//!
//! Each cluster names the limb it drives and the control points it moves; the
//! limb hierarchy gives the bones their parents.
use vstd::prelude::*;
use crate::bytes;
use crate::chain;
use crate::listing;
use crate::mesh::{Influence, SkinnedMesh};
use crate::mesh;
use crate::scalar::Scalar;
use crate::skeleton::{Bone, Matrix, Skeleton};
use crate::skeleton;

verus! {

// ── geometry ──────────────────────────────────────────────────────────────────

/// The triangles of a polygon with the given number of corners: a fan around
/// the first corner. Fewer than three corners give no triangle.
pub fn fan(corners: usize) -> (r: Vec<(usize, usize, usize)>)
    ensures
        r@ == Seq::new(
            (if corners >= 2 { corners - 2 } else { 0 }) as nat,
            |i: int| (0usize, (i + 1) as usize, (i + 2) as usize),
        ),
        corners >= 3 ==> r@.len() + 2 == corners && r@[0].1 == 1 && r@.last().2 == corners - 1,
        corners < 3 ==> r@.len() == 0,
        forall|j: int|
            0 <= j < r@.len() ==> (#[trigger] r@[j]).0 == 0 && 0 < r@[j].1 && r@[j].1 + 1 == r@[j].2,
        forall|j: int, k: int|
            0 <= j && k == j + 1 && k < r@.len() ==> (#[trigger] r@[j]).2 == (#[trigger] r@[k]).1,
{
    let mut r: Vec<(usize, usize, usize)> = Vec::new();
    let mut i: usize = 2;
    while i < corners
        invariant
            2 <= i,
            i <= corners || corners < 2,
            r@.len() == i - 2,
            forall|j: int|
                0 <= j < r@.len() ==> #[trigger] r@[j] == (0usize, (j + 1) as usize, (j + 2) as usize),
            corners < 2 ==> i == 2,
        decreases corners - i,
    {
        r.push((0, i - 1, i));
        i += 1;
    }
    assert(r@ =~= Seq::new(
        (if corners >= 2 { corners - 2 } else { 0 }) as nat,
        |i: int| (0usize, (i + 1) as usize, (i + 2) as usize),
    ));
    r
}

// ── limb order ────────────────────────────────────────────────────────────────

/// A limb and the limb it hangs on.
#[derive(Clone, Copy, Debug, PartialEq, Eq)]
pub struct LimbLink {
    pub id: i64,
    pub parent: Option<i64>,
}

/// The last of the first `n` limbs with an id.
pub open spec fn last_with_id(links: Seq<LimbLink>, id: i64, n: nat) -> Option<usize>
    decreases n,
{
    if n == 0 {
        None
    } else if links[n - 1].id == id {
        Some((n - 1) as usize)
    } else {
        last_with_id(links, id, (n - 1) as nat)
    }
}

/// The position of the parent of limb `i`, if the list holds it.
pub open spec fn limb_parent(links: Seq<LimbLink>, i: int) -> Option<usize> {
    match links[i].parent {
        Some(p) => last_with_id(links, p, links.len()),
        None => None,
    }
}

/// The parent positions of all limbs.
pub open spec fn limb_parents(links: Seq<LimbLink>) -> Seq<Option<usize>> {
    Seq::new(links.len(), |i: int| limb_parent(links, i))
}

fn find_last(links: &Vec<LimbLink>, id: i64) -> (r: Option<usize>)
    ensures
        r == last_with_id(links@, id, links@.len()),
        r matches Some(k) ==> k < links@.len(),
{
    let mut n: usize = links.len();
    while n > 0
        invariant
            n <= links@.len(),
            last_with_id(links@, id, links@.len()) == last_with_id(links@, id, n as nat),
        decreases n,
    {
        if links[n - 1].id == id {
            return Some(n - 1);
        }
        n -= 1;
    }
    None
}

/// Find the position of the parent of limb `i`.
pub fn find_parent(links: &Vec<LimbLink>, i: usize) -> (r: Option<usize>)
    requires
        i < links@.len(),
    ensures
        r == limb_parent(links@, i as int),
        r matches Some(k) ==> k < links@.len(),
{
    match links[i].parent {
        Some(p) => find_last(links, p),
        None => None,
    }
}

/// Order limbs so that each parent precedes its children.
pub fn topo_order_clusters(links: &Vec<LimbLink>) -> (order: Vec<usize>)
    ensures
        order@.map_values(|u: usize| u as int) == chain::order_of(limb_parents(links@)),
{
    let mut parents: Vec<Option<usize>> = Vec::new();
    let mut i: usize = 0;
    while i < links.len()
        invariant
            i <= links@.len(),
            parents@.len() == i,
            forall|j: int| 0 <= j < i ==> #[trigger] parents@[j] == limb_parent(links@, j),
            forall|j: int| 0 <= j < i ==> (#[trigger] parents@[j] matches Some(p) ==> p < links@.len()),
        decreases links@.len() - i,
    {
        parents.push(find_parent(links, i));
        i += 1;
    }
    assert(parents@ =~= limb_parents(links@));
    chain::parents_first(&parents)
}

// ── skin ──────────────────────────────────────────────────────────────────────

/// The weight a cluster gives a control point.
#[derive(Clone, Copy, Debug, PartialEq, Eq)]
pub struct ClusterWeight {
    pub vertex: u32,
    /// Whether the stored weight is above zero.
    pub positive: bool,
    pub weight: Scalar,
}

/// A skin cluster: the limb it drives and the control points it moves.
#[derive(Clone, Debug, PartialEq, Eq)]
pub struct ClusterRec {
    pub name: String,
    pub weights: Vec<ClusterWeight>,
}

/// The bone of a limb id after the first `n` bones: the last of them that was
/// made from a limb with this id.
pub open spec fn bone_of_id(links: Seq<LimbLink>, order: Seq<int>, id: i64, n: nat) -> Option<u16>
    decreases n,
{
    if n == 0 {
        None
    } else if links[order[n - 1]].id == id {
        Some((n - 1) as u16)
    } else {
        bone_of_id(links, order, id, (n - 1) as nat)
    }
}

/// The bone of a limb id.
pub open spec fn id_to_bone(links: Seq<LimbLink>, id: i64) -> Option<u16> {
    bone_of_id(links, chain::order_of(limb_parents(links)), id, links.len())
}

/// Whether a bone list is the one made from the clusters.
pub open spec fn bones_from_clusters(
    bones: Seq<Bone>,
    links: Seq<LimbLink>,
    recs: Seq<ClusterRec>,
    local_binds: Seq<Matrix>,
) -> bool {
    let order = chain::order_of(limb_parents(links));
    &&& bones.len() == links.len()
    &&& forall|b: int|
        0 <= b < bones.len() ==> {
            &&& (#[trigger] bones[b]).name@ == recs[order[b]].name@
            &&& bones[b].parent == (match links[order[b]].parent {
                Some(p) => match id_to_bone(links, p) {
                    Some(bone) => Some(bone as usize),
                    None => None,
                },
                None => None,
            })
            &&& bones[b].local_bind == local_binds[order[b]]
        }
}

/// What the first `n` weights of a cluster give a vertex.
pub open spec fn cluster_gives(weights: Seq<ClusterWeight>, bone: u16, v: int, n: nat) -> Seq<
    Influence,
>
    decreases n,
{
    if n == 0 {
        Seq::empty()
    } else {
        let before = cluster_gives(weights, bone, v, (n - 1) as nat);
        let w = weights[n - 1];
        if w.positive && w.vertex == v {
            before.push(Influence { bone, weight: w.weight })
        } else {
            before
        }
    }
}

/// Everything that the clusters give a vertex, in cluster order.
pub open spec fn given_to(links: Seq<LimbLink>, recs: Seq<ClusterRec>, v: int) -> Seq<Influence> {
    bytes::flat(
        recs.len(),
        |r: int|
            cluster_gives(
                recs[r].weights@,
                id_to_bone(links, links[r].id)->0,
                v,
                recs[r].weights@.len(),
            ),
    )
}

fn find_bone(links: &Vec<LimbLink>, order: &Vec<usize>, id: i64) -> (r: Option<u16>)
    requires
        order@.map_values(|u: usize| u as int) == chain::order_of(limb_parents(links@)),
    ensures
        r == id_to_bone(links@, id),
{
    let ghost list = chain::order_of(limb_parents(links@));
    proof {
        chain::order_is_a_permutation(limb_parents(links@));
    }
    let mut n: usize = order.len();
    while n > 0
        invariant
            n <= order@.len(),
            list == order@.map_values(|u: usize| u as int),
            forall|k: int| 0 <= k < list.len() ==> 0 <= #[trigger] list[k] < links@.len(),
            id_to_bone(links@, id) == bone_of_id(links@, list, id, n as nat),
        decreases n,
    {
        assert(list[n - 1] == order@[n - 1]);
        if links[order[n - 1]].id == id {
            return Some((n - 1) as u16);
        }
        n -= 1;
    }
    None
}

proof fn listed_id_has_bone(links: Seq<LimbLink>, order: Seq<int>, id: i64, n: nat, b: int)
    requires
        0 <= b < n,
        links[order[b]].id == id,
    ensures
        bone_of_id(links, order, id, n) is Some,
    decreases n,
{
    if b < n - 1 {
        listed_id_has_bone(links, order, id, (n - 1) as nat, b);
    }
}

proof fn every_limb_has_bone(links: Seq<LimbLink>, r: int)
    requires
        0 <= r < links.len(),
    ensures
        id_to_bone(links, links[r].id) is Some,
{
    let parents = limb_parents(links);
    let order = chain::order_of(parents);
    chain::order_is_a_permutation(parents);
    assert(order.contains(r));
    listed_id_has_bone(links, order, links[r].id, links.len(), order.index_of(r));
}

fn build_bones(
    links: &Vec<LimbLink>,
    order: &Vec<usize>,
    recs: &Vec<ClusterRec>,
    local_binds: &Vec<Matrix>,
) -> (bones: Vec<Bone>)
    requires
        order@.map_values(|u: usize| u as int) == chain::order_of(limb_parents(links@)),
        recs@.len() == links@.len(),
        local_binds@.len() == links@.len(),
    ensures
        bones_from_clusters(bones@, links@, recs@, local_binds@),
{
    let ghost list = chain::order_of(limb_parents(links@));
    proof {
        chain::order_is_a_permutation(limb_parents(links@));
    }
    let mut bones: Vec<Bone> = Vec::new();
    let mut b: usize = 0;
    while b < order.len()
        invariant
            b <= order@.len(),
            recs@.len() == links@.len(),
            local_binds@.len() == links@.len(),
            list == order@.map_values(|u: usize| u as int),
            list == chain::order_of(limb_parents(links@)),
            forall|k: int| 0 <= k < list.len() ==> 0 <= #[trigger] list[k] < links@.len(),
            bones@.len() == b,
            forall|j: int|
                0 <= j < b ==> {
                    &&& (#[trigger] bones@[j]).name@ == recs@[list[j]].name@
                    &&& bones@[j].parent == (match links@[list[j]].parent {
                        Some(p) => match id_to_bone(links@, p) {
                            Some(bone) => Some(bone as usize),
                            None => None,
                        },
                        None => None,
                    })
                    &&& bones@[j].local_bind == local_binds@[list[j]]
                },
        decreases order@.len() - b,
    {
        let r: usize = order[b];
        assert(list[b as int] == r);
        let parent = match links[r].parent {
            Some(p) => match find_bone(links, order, p) {
                Some(bone) => Some(bone as usize),
                None => None,
            },
            None => None,
        };
        let name = recs[r].name.as_str().to_owned();
        bones.push(Bone { name, parent, local_bind: local_binds[r] });
        b += 1;
    }
    bones
}

fn give(accum: &mut Vec<Vec<Influence>>, weights: &Vec<ClusterWeight>, bone: u16)
    ensures
        final(accum)@.len() == old(accum)@.len(),
        forall|v: int|
            0 <= v < old(accum)@.len() ==> (#[trigger] final(accum)@[v])@ == old(accum)@[v]@
                + cluster_gives(weights@, bone, v, weights@.len()),
{
    let ghost start = accum@;
    let mut n: usize = 0;
    assert forall|v: int| 0 <= v < start.len() implies (#[trigger] accum@[v])@ == start[v]@
        + cluster_gives(weights@, bone, v, 0) by {
        assert(start[v]@ + Seq::<Influence>::empty() =~= start[v]@);
    }
    while n < weights.len()
        invariant
            n <= weights@.len(),
            accum@.len() == start.len(),
            forall|v: int|
                0 <= v < start.len() ==> (#[trigger] accum@[v])@ == start[v]@ + cluster_gives(
                    weights@,
                    bone,
                    v,
                    n as nat,
                ),
        decreases weights@.len() - n,
    {
        let ghost prior = accum@;
        let w = weights[n];
        let at: usize = w.vertex as usize;
        if w.positive && at < accum.len() {
            accum[at].push(Influence { bone, weight: w.weight });
        }
        proof {
            assert forall|v: int| 0 <= v < start.len() implies (#[trigger] accum@[v])@ == start[v]@
                + cluster_gives(weights@, bone, v, (n + 1) as nat) by {
                let before = cluster_gives(weights@, bone, v, n as nat);
                assert(prior[v]@ == start[v]@ + before);
                if w.positive && w.vertex == v {
                    assert(start[v]@ + before.push(Influence { bone, weight: w.weight }) =~= (
                    start[v]@ + before).push(Influence { bone, weight: w.weight }));
                }
            }
        }
        n += 1;
    }
}

/// Build the skeleton of a skin and spread its weights over the mesh. `links`,
/// `recs` and `local_binds` describe the clusters: their limbs, what they move,
/// and their limbs' transforms against their parents. Every vertex that some
/// cluster moves keeps its strongest influences; weights are kept as stored.
/// Without clusters there is no skeleton.
pub fn build_skin(
    links: &Vec<LimbLink>,
    recs: &Vec<ClusterRec>,
    local_binds: &Vec<Matrix>,
    out: &mut SkinnedMesh,
) -> (r: Option<Skeleton>)
    requires
        recs@.len() == links@.len(),
        local_binds@.len() == links@.len(),
        old(out).vertices@.len() <= old(out).influences@.len(),
    ensures
        r is None <==> links@.len() == 0,
        r matches Some(s) ==> bones_from_clusters(s.bones@, links@, recs@, local_binds@),
        final(out).same_shape(*old(out)),
        final(out).influences@.len() == old(out).influences@.len(),
        forall|v: int|
            0 <= v < old(out).influences@.len() ==> {
                let list = given_to(links@, recs@, v);
                if v < old(out).vertices@.len() && list.len() > 0 {
                    (#[trigger] final(out).influences@[v])@ == mesh::strongest_of(list)
                } else {
                    final(out).influences@[v] == old(out).influences@[v]
                }
            },
{
    if links.len() == 0 {
        assert forall|v: int| 0 <= v < out.influences@.len() implies given_to(
            links@,
            recs@,
            v,
        ).len() == 0 by {}
        return None;
    }
    let order = topo_order_clusters(links);
    let bones = build_bones(links, &order, recs, local_binds);
    let count: usize = out.vertex_count();
    let mut accum: Vec<Vec<Influence>> = Vec::new();
    let mut i: usize = 0;
    while i < count
        invariant
            i <= count,
            accum@.len() == i,
            forall|v: int| 0 <= v < i ==> (#[trigger] accum@[v])@ == Seq::<Influence>::empty(),
        decreases count - i,
    {
        accum.push(Vec::new());
        i += 1;
    }
    let mut r: usize = 0;
    while r < recs.len()
        invariant
            r <= recs@.len(),
            recs@.len() == links@.len(),
            order@.map_values(|u: usize| u as int) == chain::order_of(limb_parents(links@)),
            accum@.len() == count,
            forall|v: int|
                0 <= v < count ==> (#[trigger] accum@[v])@ == bytes::flat(
                    r as nat,
                    |r: int|
                        cluster_gives(
                            recs@[r].weights@,
                            id_to_bone(links@, links@[r].id)->0,
                            v,
                            recs@[r].weights@.len(),
                        ),
                ),
        decreases recs@.len() - r,
    {
        proof {
            every_limb_has_bone(links@, r as int);
        }
        let bone: u16 = match find_bone(links, &order, links[r].id) {
            Some(bone) => bone,
            None => 0,
        };
        let ghost prior = accum@;
        give(&mut accum, &recs[r].weights, bone);
        proof {
            assert forall|v: int| 0 <= v < count implies (#[trigger] accum@[v])@ == bytes::flat(
                (r + 1) as nat,
                |r: int|
                    cluster_gives(
                        recs@[r].weights@,
                        id_to_bone(links@, links@[r].id)->0,
                        v,
                        recs@[r].weights@.len(),
                    ),
            ) by {
                let f = |r: int|
                    cluster_gives(
                        recs@[r].weights@,
                        id_to_bone(links@, links@[r].id)->0,
                        v,
                        recs@[r].weights@.len(),
                    );
                assert(prior[v]@ == bytes::flat(r as nat, f));
                assert(f(r as int) == cluster_gives(
                    recs@[r as int].weights@,
                    bone,
                    v,
                    recs@[r as int].weights@.len(),
                ));
            }
        }
        r += 1;
    }
    let ghost start = out.influences@;
    let mut v: usize = 0;
    while v < count
        invariant
            v <= count,
            accum@.len() == count,
            count == old(out).vertices@.len(),
            count <= start.len(),
            start == old(out).influences@,
            out.same_shape(*old(out)),
            out.influences@.len() == start.len(),
            forall|u: int|
                0 <= u < v ==> (if accum@[u]@.len() > 0 {
                    (#[trigger] out.influences@[u])@ == mesh::strongest_of(accum@[u]@)
                } else {
                    out.influences@[u] == start[u]
                }),
            forall|u: int| v <= u < start.len() ==> out.influences@[u] == start[u],
        decreases count - v,
    {
        if accum[v].len() > 0 {
            out.influences[v] = mesh::strongest_influences(&accum[v]);
        }
        v += 1;
    }
    assert forall|u: int| 0 <= u < count implies #[trigger] accum@[u]@ == given_to(
        links@,
        recs@,
        u,
    ) by {}
    Some(Skeleton { bones })
}

/// Where limb ids differ and limb links do not run in a circle, the skeleton is
/// in topological order.
pub proof fn cluster_bones_are_topological(
    bones: Seq<Bone>,
    links: Seq<LimbLink>,
    recs: Seq<ClusterRec>,
    local_binds: Seq<Matrix>,
)
    requires
        bones_from_clusters(bones, links, recs, local_binds),
        links.len() <= usize::MAX,
        forall|i: int, j: int|
            0 <= i < links.len() && 0 <= j < links.len() && i != j ==> links[i].id != links[j].id,
        chain::all_rooted(limb_parents(links)),
    ensures
        skeleton::topological(bones),
{
    let parents = limb_parents(links);
    let order = chain::order_of(parents);
    chain::order_is_a_permutation(parents);
    chain::order_puts_parents_first(parents);
    assert forall|b: int| 0 <= b < bones.len() implies !skeleton::misplaced(bones, b) by {
        let bone = bones[b];
        let r = order[b];
        assert(parents[r] matches Some(p) ==> order.take(b).contains(p as int));
        if let Some(id) = links[r].parent {
            if let Some(q) = id_to_bone(links, id) {
                let m = bone_position(links, order, id, links.len());
                assert(0 <= m < links.len() && links[order[m]].id == id && q == m as u16);
                last_is_unique(links, id, order[m], links.len());
                assert(parents[r] == Some(order[m] as usize));
                let before = order.take(b);
                let j = before.index_of(order[m]);
                assert(before[j] == order[m] && order[j] == order[m]);
                assert(j == m);
            }
        }
    }
}

proof fn bone_position(links: Seq<LimbLink>, order: Seq<int>, id: i64, n: nat) -> (m: int)
    requires
        bone_of_id(links, order, id, n) is Some,
    ensures
        0 <= m < n,
        links[order[m]].id == id,
        bone_of_id(links, order, id, n)->0 == m as u16,
    decreases n,
{
    if links[order[n - 1]].id == id {
        n - 1
    } else {
        bone_position(links, order, id, (n - 1) as nat)
    }
}

proof fn last_is_unique(links: Seq<LimbLink>, id: i64, k: int, n: nat)
    requires
        0 <= k < n <= links.len(),
        links[k].id == id,
        links.len() <= usize::MAX,
        forall|i: int, j: int|
            0 <= i < links.len() && 0 <= j < links.len() && i != j ==> links[i].id != links[j].id,
    ensures
        last_with_id(links, id, n) == Some(k as usize),
    decreases n,
{
    if k < n - 1 {
        last_is_unique(links, id, k, (n - 1) as nat);
    }
}

/// The parent of a limb is found exactly if some limb has the id that the limb
/// names; of several limbs with this id it is the last.
pub proof fn parents_are_found_by_id(links: Seq<LimbLink>, i: int)
    requires
        0 <= i < links.len() <= usize::MAX,
    ensures
        match limb_parent(links, i) {
            Some(k) => {
                &&& k < links.len()
                &&& links[i].parent == Some(links[k as int].id)
                &&& forall|j: int| k < j < links.len() ==> (#[trigger] links[j]).id != links[k as int].id
            },
            None => match links[i].parent {
                Some(p) => forall|j: int| 0 <= j < links.len() ==> (#[trigger] links[j]).id != p,
                None => true,
            },
        },
{
    if let Some(p) = links[i].parent {
        last_is_found(links, p, links.len());
    }
}

proof fn last_is_found(links: Seq<LimbLink>, id: i64, n: nat)
    requires
        n <= links.len() <= usize::MAX,
    ensures
        match last_with_id(links, id, n) {
            Some(k) => k < n && links[k as int].id == id && forall|j: int|
                k < j < n ==> (#[trigger] links[j]).id != id,
            None => forall|j: int| 0 <= j < n ==> (#[trigger] links[j]).id != id,
        },
    decreases n,
{
    if n > 0 && links[n - 1].id != id {
        last_is_found(links, id, (n - 1) as nat);
    }
}

/// Where limb ids differ, every limb becomes one bone, which bears the name and
/// the transform of this limb, and whose parent is the bone of the limb's
/// parent. A limb whose parent is not in the list becomes a root.
pub proof fn limbs_become_their_bones(
    bones: Seq<Bone>,
    links: Seq<LimbLink>,
    recs: Seq<ClusterRec>,
    local_binds: Seq<Matrix>,
    r: int,
)
    requires
        bones_from_clusters(bones, links, recs, local_binds),
        links.len() <= u16::MAX,
        forall|i: int, j: int|
            0 <= i < links.len() && 0 <= j < links.len() && i != j ==> links[i].id != links[j].id,
        0 <= r < links.len(),
    ensures
        ({
            let b = id_to_bone(links, links[r].id);
            &&& b is Some && b->0 < bones.len()
            &&& bones[b->0 as int].name@ == recs[r].name@
            &&& bones[b->0 as int].local_bind == local_binds[r]
            &&& bones[b->0 as int].parent is None <==> (links[r].parent is None || forall|j: int|
                0 <= j < links.len() ==> (#[trigger] links[j]).id != links[r].parent->0)
            &&& forall|p: int|
                0 <= p < links.len() && links[r].parent == Some((#[trigger] links[p]).id) ==> {
                    let q = id_to_bone(links, links[p].id);
                    q is Some && bones[b->0 as int].parent == Some(q->0 as usize)
                }
        }),
{
    let parents = limb_parents(links);
    let order = chain::order_of(parents);
    chain::order_is_a_permutation(parents);
    every_limb_has_bone(links, r);
    let m = bone_position(links, order, links[r].id, links.len());
    assert(links[order[m]].id == links[r].id);
    assert(order[m] == r);
    let bone = bones[m];
    if let Some(p) = links[r].parent {
        if id_to_bone(links, p) is Some {
            let q = bone_position(links, order, p, links.len());
            assert(links[order[q]].id == p);
        } else {
            assert forall|j: int| 0 <= j < links.len() implies (#[trigger] links[j]).id != p by {
                if links[j].id == p {
                    every_limb_has_bone(links, j);
                }
            }
        }
        assert forall|j: int| 0 <= j < links.len() && links[r].parent == Some(
            (#[trigger] links[j]).id,
        ) implies id_to_bone(links, links[j].id) is Some by {
            every_limb_has_bone(links, j);
        }
    }
}

/// A cluster gives a vertex one influence for each of its stored weights that
/// is above zero and names the vertex, in their order, and nothing else.
pub proof fn clusters_give_what_they_store(
    weights: Seq<ClusterWeight>,
    bone: u16,
    v: int,
    n: nat,
)
    requires
        n <= weights.len(),
    ensures
        cluster_gives(weights, bone, v, n) == listing::indices_where(
            n,
            |k: int| weights[k].vertex == v && weights[k].positive,
        ).map_values(|k: int| Influence { bone, weight: weights[k].weight }),
    decreases n,
{
    let p = |k: int| weights[k].vertex == v && weights[k].positive;
    let g = |k: int| Influence { bone, weight: weights[k].weight };
    if n > 0 {
        clusters_give_what_they_store(weights, bone, v, (n - 1) as nat);
        let before = listing::indices_where((n - 1) as nat, p);
        assert(before.push(n - 1).map_values(g) =~= before.map_values(g).push(g(n - 1)));
    }
    assert(cluster_gives(weights, bone, v, n) =~= listing::indices_where(n, p).map_values(g));
}

/// Each stored weight above zero reaches the vertex that it names, with the
/// bone of its own cluster's limb.
pub proof fn stored_weights_reach_their_vertices(
    links: Seq<LimbLink>,
    recs: Seq<ClusterRec>,
    r: int,
    k: int,
)
    requires
        recs.len() == links.len(),
        0 <= r < recs.len(),
        0 <= k < recs[r].weights@.len(),
        recs[r].weights@[k].positive,
    ensures
        id_to_bone(links, links[r].id) is Some,
        given_to(links, recs, recs[r].weights@[k].vertex as int).contains(
            Influence {
                bone: id_to_bone(links, links[r].id)->0,
                weight: recs[r].weights@[k].weight,
            },
        ),
{
    let w = recs[r].weights@[k];
    let v = w.vertex as int;
    let f = |r: int|
        cluster_gives(
            recs[r].weights@,
            id_to_bone(links, links[r].id)->0,
            v,
            recs[r].weights@.len(),
        );
    every_limb_has_bone(links, r);
    bytes::flat_holds_each_piece(recs.len(), f, r);
    let bone = id_to_bone(links, links[r].id)->0;
    let given = Influence { bone, weight: w.weight };
    let list = recs[r].weights@;
    clusters_give_what_they_store(list, bone, v, list.len());
    let p = |k: int| list[k].vertex == v && list[k].positive;
    listing::listed_iff_satisfied(list.len(), p, k);
    let c = listing::indices_where(list.len(), p).index_of(k);
    assert(f(r)[c] == given);
    assert(given_to(links, recs, v)[bytes::flat(r as nat, f).len() + c] == given);
}

} // verus!
