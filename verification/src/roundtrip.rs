//! What an exported binary glTF file gives back on import: geometry, weights
//! and skeleton. (Keys are covered in [`crate::export::keys`].)
use vstd::prelude::*;
use crate::chain;
use crate::export::glb;
use crate::export::glb::WeightTotal;
use crate::export::keys;
use crate::import::gltf;
use crate::import::gltf::Primitive;
use crate::listing;
use crate::mesh;
use crate::mesh::{Influence, SkinnedMesh};
use crate::scalar::Scalar;
use crate::skeleton;
use crate::skeleton::{Bone, Matrix};

verus! {

// ── geometry ──────────────────────────────────────────────────────────────────

/// The primitive that stands in the file of a mesh.
pub open spec fn stored_primitive(prim: Primitive, mesh: SkinnedMesh, sums: Seq<WeightTotal>) -> bool {
    let n = mesh.vertices@.len();
    &&& prim.positions matches Some(list) && list@.len() == n && forall|i: int|
        0 <= i < n ==> #[trigger] list@[i] == mesh.vertices@[i].position
    &&& prim.normals matches Some(list) && list@.len() == n && forall|i: int|
        0 <= i < n ==> #[trigger] list@[i] == mesh.vertices@[i].normal
    &&& prim.uvs matches Some(list) && list@.len() == n && forall|i: int|
        0 <= i < n ==> #[trigger] list@[i] == mesh.vertices@[i].uv
    &&& prim.indices matches Some(list) && list@ == mesh.indices@
    &&& prim.joints matches Some(list) && list@.len() == n && forall|i: int|
        0 <= i < n ==> (#[trigger] list@[i])@ == glb::packed_joints(
            mesh.influences@[i]@,
            sums[i],
        )
    &&& prim.weights matches Some(list) && list@.len() == n && forall|i: int|
        0 <= i < n ==> (#[trigger] list@[i])@ == glb::packed_weights(
            mesh.influences@[i]@,
            sums[i],
        )
}

/// A joint table that leaves every number as it is.
pub open spec fn plain_table(table: Seq<Option<u16>>) -> bool {
    forall|j: int| 0 <= j < 0x1_0000 ==> (#[trigger] table[j] is None || table[j] == Some(j as u16))
}

/// A weight sum that leaves the weights of a vertex as they are.
pub open spec fn close_to_one(sum: WeightTotal) -> bool {
    !sum.total.spec_le(Scalar::zero()) && !(Scalar {
        bits: glb::TOTAL_TOLERANCE_BITS,
    }).spec_lt(sum.deviation)
}

/// A set with the slots that carry no weight cleared.
pub open spec fn cleared(set: Seq<Influence>) -> Seq<Influence> {
    Seq::new(
        set.len(),
        |k: int|
            if set[k].weighted() {
                set[k]
            } else {
                Influence::none()
            },
    )
}

/// Geometry and weights survive a file: vertices and indices come back as they
/// were; a vertex whose weights sum to one keeps every slot that carries weight;
/// a vertex without weight comes back bound to the first bone.
pub proof fn exported_mesh_reads_back(
    written: SkinnedMesh,
    sums: Seq<WeightTotal>,
    prim: Primitive,
    table: Seq<Option<u16>>,
    read: SkinnedMesh,
)
    requires
        written.influences@.len() == written.vertices@.len(),
        sums.len() == written.vertices@.len(),
        stored_primitive(prim, written, sums),
        plain_table(table),
        gltf::mesh_of(read, prim, table),
    ensures
        read.vertices@ == written.vertices@,
        read.indices@ == written.indices@,
        read.influences@.len() == written.influences@.len(),
        forall|i: int|
            0 <= i < sums.len() && close_to_one(#[trigger] sums[i]) ==> read.influences@[i]@
                == cleared(written.influences@[i]@),
        forall|i: int|
            0 <= i < sums.len() && (#[trigger] sums[i]).total.spec_le(Scalar::zero())
                ==> read.influences@[i]@ == seq![
                Influence { bone: 0, weight: Scalar::one() },
                Influence::none(),
                Influence::none(),
                Influence::none(),
            ],
{
    let n = written.vertices@.len();
    assert(read.vertices@ =~= written.vertices@) by {
        assert forall|i: int| 0 <= i < n implies read.vertices@[i] == written.vertices@[i] by {
            assert(gltf::is_vertex(read.vertices@[i], prim, i));
            assert(prim.positions->0@[i] == written.vertices@[i].position);
            assert(prim.normals->0@[i] == written.vertices@[i].normal);
            assert(prim.uvs->0@[i] == written.vertices@[i].uv);
        }
    }
    assert forall|i: int| 0 <= i < sums.len() && close_to_one(#[trigger] sums[i]) implies read
        .influences@[i]@ == cleared(written.influences@[i]@) by {
        slots_survive(written, sums, prim, table, i);
        let set = written.influences@[i]@;
        assert(read.influences@[i]@ == gltf::influences_at(prim, table, i));
        assert(read.influences@[i]@ =~= cleared(set));
    }
    assert forall|i: int|
        0 <= i < sums.len() && (#[trigger] sums[i]).total.spec_le(Scalar::zero()) implies read
        .influences@[i]@ == seq![
        Influence { bone: 0, weight: Scalar::one() },
        Influence::none(),
        Influence::none(),
        Influence::none(),
    ] by {
        assert(read.influences@[i]@ == gltf::influences_at(prim, table, i));
        assert(prim.joints->0@[i]@ == glb::packed_joints(written.influences@[i]@, sums[i]));
        assert(prim.weights->0@[i]@ == glb::packed_weights(written.influences@[i]@, sums[i]));
        assert(table[0] is None || table[0] == Some(0u16));
        assert(read.influences@[i]@ =~= seq![
            Influence { bone: 0, weight: Scalar::one() },
            Influence::none(),
            Influence::none(),
            Influence::none(),
        ]);
    }
}

proof fn slots_survive(
    written: SkinnedMesh,
    sums: Seq<WeightTotal>,
    prim: Primitive,
    table: Seq<Option<u16>>,
    i: int,
)
    requires
        0 <= i < written.vertices@.len(),
        written.influences@.len() == written.vertices@.len(),
        stored_primitive(prim, written, sums),
        plain_table(table),
        close_to_one(sums[i]),
    ensures
        forall|k: int|
            0 <= k < 4 ==> #[trigger] gltf::influences_at(prim, table, i)[k] == cleared(
                written.influences@[i]@,
            )[k],
{
    let set = written.influences@[i]@;
    assert(prim.joints->0@[i]@ == glb::packed_joints(set, sums[i]));
    assert(prim.weights->0@[i]@ == glb::packed_weights(set, sums[i]));
    assert forall|k: int| 0 <= k < 4 implies #[trigger] gltf::influences_at(prim, table, i)[k]
        == cleared(set)[k] by {
        let joint = glb::packed_joints(set, sums[i])[k];
        assert(table[joint as int] is None || table[joint as int] == Some(joint));
    }
}

/// Clearing the slots without weight does not change the dominant bone, so a
/// vertex whose weights sum to one keeps it.
pub proof fn dominant_bone_survives(set: Seq<Influence>)
    ensures
        mesh::dominant_of(cleared(set)) == mesh::dominant_of(set),
{
    dominant_slot_survives(set, set.len());
}

proof fn dominant_slot_survives(set: Seq<Influence>, n: nat)
    requires
        n <= set.len(),
    ensures
        mesh::dominant_slot(cleared(set), n) == mesh::dominant_slot(set, n),
        mesh::dominant_slot(set, n) matches Some(k) ==> 0 <= k < n && cleared(set)[k] == set[k],
    decreases n,
{
    if n > 0 {
        dominant_slot_survives(set, (n - 1) as nat);
    }
}

// ── skeleton ──────────────────────────────────────────────────────────────────

/// The node tree that stands in the file of a skeleton: node 0 is the mesh,
/// node `i + 1` bone `i` with the nodes of its children.
pub open spec fn stored_nodes(children: Seq<Vec<usize>>, bones: Seq<Bone>) -> bool {
    &&& children.len() == bones.len() + 1
    &&& children[0]@.len() == 0
    &&& forall|i: int|
        0 <= i < bones.len() ==> (#[trigger] children[i + 1])@ == Seq::new(
            glb::children_of(bones, i).len(),
            |k: int| (glb::children_of(bones, i)[k] + 1) as usize,
        )
}

/// The joints that stand in the file: node `i + 1` for bone `i`.
pub open spec fn stored_joints(joints: Seq<usize>, bones: Seq<Bone>) -> bool {
    joints.len() == bones.len() && forall|i: int|
        0 <= i < joints.len() ==> #[trigger] joints[i] == i + 1
}

/// The links of the nodes: bone by bone one higher than those of the bones.
pub open spec fn node_links(parents: Seq<Option<usize>>, bones: Seq<Bone>) -> bool {
    &&& parents.len() == bones.len() + 1
    &&& parents[0] is None
    &&& forall|i: int|
        0 <= i < bones.len() ==> #[trigger] parents[i + 1] == (match bones[i].parent {
            Some(p) => Some((p + 1) as usize),
            None => None,
        })
}

proof fn child_of_node(children: Seq<Vec<usize>>, bones: Seq<Bone>, i: int, c: int)
    requires
        stored_nodes(children, bones),
        bones.len() < usize::MAX,
        0 <= i <= bones.len(),
        0 <= c <= bones.len(),
    ensures
        children[i]@.contains(c as usize) <==> i > 0 && c > 0 && bones[c - 1].parent == Some(
            (i - 1) as usize,
        ),
{
    if i > 0 {
        let list = glb::children_of(bones, i - 1);
        let p = |j: int| bones[j].parent == Some((i - 1) as usize);
        assert(children[(i - 1) + 1]@ == Seq::new(list.len(), |k: int| (list[k] + 1) as usize));
        listing::listed_ascending(bones.len(), p);
        if c > 0 {
            listing::listed_iff_satisfied(bones.len(), p, c - 1);
            if list.contains(c - 1) {
                let k = list.index_of(c - 1);
                assert(list[k] == c - 1);
                assert(children[i]@[k] == c as usize);
            }
        }
        if children[i]@.contains(c as usize) {
            let k = children[i]@.index_of(c as usize);
            assert(children[i]@[k] == c as usize);
            assert(0 <= list[k] < bones.len());
            assert(list[k] == c - 1);
            assert(list.contains(c - 1));
        }
    }
}

proof fn parent_of_node(children: Seq<Vec<usize>>, bones: Seq<Bone>, c: int, n: nat)
    requires
        stored_nodes(children, bones),
        bones.len() < usize::MAX,
        0 <= c <= bones.len(),
        n <= bones.len() + 1,
    ensures
        gltf::parent_after(children, c, n) == (if c > 0 {
            match bones[c - 1].parent {
                Some(p) if p + 1 < n => Some((p + 1) as usize),
                _ => None,
            }
        } else {
            None
        }),
    decreases n,
{
    if n > 0 {
        parent_of_node(children, bones, c, (n - 1) as nat);
        child_of_node(children, bones, n - 1, c);
    }
}

/// The links that the importer reads off the node tree of an exported skeleton
/// are those of its bones.
pub proof fn stored_nodes_link_bones(
    children: Seq<Vec<usize>>,
    bones: Seq<Bone>,
    parents: Seq<Option<usize>>,
)
    requires
        stored_nodes(children, bones),
        skeleton::topological(bones),
        bones.len() < usize::MAX,
        parents.len() == children.len(),
        forall|c: int|
            0 <= c < parents.len() ==> #[trigger] parents[c] == gltf::parent_after(
                children,
                c,
                children.len(),
            ),
    ensures
        node_links(parents, bones),
{
    assert(parents[0] == gltf::parent_after(children, 0, children.len()));
    parent_of_node(children, bones, 0, children.len());
    assert forall|i: int| 0 <= i < bones.len() implies #[trigger] parents[i + 1] == (
    match bones[i].parent {
        Some(p) => Some((p + 1) as usize),
        None => None,
    }) by {
        assert(parents[i + 1] == gltf::parent_after(children, i + 1, children.len()));
        parent_of_node(children, bones, i + 1, children.len());
        assert(!skeleton::misplaced(bones, i));
    }
}

proof fn node_rooted(parents: Seq<Option<usize>>, bones: Seq<Bone>, c: int)
    requires
        node_links(parents, bones),
        skeleton::topological(bones),
        bones.len() < usize::MAX,
        0 <= c <= bones.len(),
    ensures
        chain::rooted(parents, c, c as nat),
{
    assert forall|j: int| 0 <= j < parents.len() implies (#[trigger] parents[j] matches Some(p)
        ==> p < j) by {
        if j > 0 {
            assert(!skeleton::misplaced(bones, j - 1));
            assert(parents[(j - 1) + 1] == parents[j]);
        }
    }
    chain::descending_is_rooted(parents, c);
}

proof fn joint_link(
    parents: Seq<Option<usize>>,
    joints: Seq<usize>,
    bones: Seq<Bone>,
    k: int,
)
    requires
        node_links(parents, bones),
        stored_joints(joints, bones),
        skeleton::topological(bones),
        bones.len() < usize::MAX,
        0 <= k < bones.len(),
    ensures
        gltf::parent_joint(parents, joints, k) == bones[k].parent,
{
    node_rooted(parents, bones, k + 1);
    assert(chain::rooted(parents, joints[k] as int, (k + 1) as nat));
    let n = choose|n: nat| chain::rooted(parents, joints[k] as int, n);
    assert(parents[k + 1] == (match bones[k].parent {
        Some(p) => Some((p + 1) as usize),
        None => None,
    }));
    assert(!skeleton::misplaced(bones, k));
    if let Some(p) = bones[k].parent {
        assert(joints[p as int] == p + 1);
        assert(joints.contains((p + 1) as usize));
        assert(n > 0);
        let at = joints.index_of((p + 1) as usize);
        assert(joints[at] == at + 1);
    }
}

/// A skeleton survives a file: from the node tree and the joints that the
/// exporter writes, the importer makes the same bones in the same order, with
/// the same names and parents, and its node numbers are those of the exporter.
pub proof fn exported_skeleton_reads_back(
    bones: Seq<Bone>,
    parents: Seq<Option<usize>>,
    joints: Seq<usize>,
    names: Seq<Option<String>>,
    local_binds: Seq<Matrix>,
    read: Seq<Bone>,
    map: Seq<Option<u16>>,
)
    requires
        skeleton::topological(bones),
        bones.len() <= u16::MAX,
        node_links(parents, bones),
        stored_joints(joints, bones),
        names.len() == bones.len(),
        forall|i: int|
            0 <= i < names.len() ==> (#[trigger] names[i] matches Some(s) && s@ == bones[i].name@),
        gltf::bones_from_joints(
            read,
            gltf::joint_parents(parents, joints),
            names,
            local_binds,
        ),
        map.len() == parents.len(),
        forall|node: int|
            0 <= node < map.len() ==> #[trigger] map[node] == (if joints.contains(node as usize) {
                Some(
                    gltf::bone_of_joint(
                        gltf::joint_parents(parents, joints),
                        joints.index_of(node as usize),
                    ),
                )
            } else {
                None
            }),
    ensures
        gltf::joints_fit(parents, joints),
        read.len() == bones.len(),
        forall|i: int|
            0 <= i < bones.len() ==> {
                &&& (#[trigger] read[i]).name@ == bones[i].name@
                &&& read[i].parent == bones[i].parent
                &&& read[i].local_bind == local_binds[i]
            },
        keys::exporter_nodes(map, bones.len()),
{
    let links = gltf::joint_parents(parents, joints);
    assert forall|k: int| 0 <= k < bones.len() implies #[trigger] links[k] == bones[k].parent by {
        joint_link(parents, joints, bones, k);
    }
    assert forall|j: int| 0 <= j < links.len() implies (#[trigger] links[j] matches Some(p) ==> p
        < j) by {
        assert(!skeleton::misplaced(bones, j));
    }
    chain::ordered_nodes_stay(links);
    let order = chain::order_of(links);
    assert forall|k: int| 0 <= k < bones.len() implies #[trigger] gltf::bone_of_joint(links, k)
        == k as u16 by {
        assert(order[k] == k);
        assert(order.contains(k));
        let at = order.index_of(k);
        assert(order[at] == at);
    }
    assert forall|i: int| 0 <= i < bones.len() implies {
        &&& (#[trigger] read[i]).name@ == bones[i].name@
        &&& read[i].parent == bones[i].parent
        &&& read[i].local_bind == local_binds[i]
    } by {
        assert(order[i] == i);
        assert(names[i] matches Some(s) && s@ == bones[i].name@);
        assert(links[i] == bones[i].parent);
        if let Some(p) = bones[i].parent {
            assert(!skeleton::misplaced(bones, i));
            assert(gltf::bone_of_joint(links, p as int) == p as u16);
        }
    }
    assert forall|k: int| 0 <= k < joints.len() implies #[trigger] chain::has_root(
        parents,
        joints[k] as int,
    ) by {
        node_rooted(parents, bones, k + 1);
        assert(chain::rooted(parents, joints[k] as int, (k + 1) as nat));
    }
    assert(joints.no_duplicates()) by {
        assert forall|a: int, b: int|
            0 <= a < joints.len() && 0 <= b < joints.len() && a != b implies joints[a]
            != joints[b] by {
            assert(joints[a] == a + 1 && joints[b] == b + 1);
        }
    }
    assert(!joints.contains(0usize)) by {
        if joints.contains(0usize) {
            let k = joints.index_of(0usize);
            assert(joints[k] == k + 1);
        }
    }
    assert(map[0] is None);
    assert forall|i: int| 0 <= i < bones.len() implies #[trigger] map[i + 1] == Some(i as u16) by {
        assert(joints[i] == i + 1);
        assert(joints.contains((i + 1) as usize));
        let at = joints.index_of((i + 1) as usize);
        assert(joints[at] == at + 1);
        assert(gltf::bone_of_joint(links, at) == at as u16);
    }
}

} // verus!
