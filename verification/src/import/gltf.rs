//! glTF import: skeleton, geometry, skin and animation from plain arrays.
//!
//! A bone's parent is the nearest ancestor node that is itself a joint, so
//! nodes that are no joints may sit between joints; bones are ordered so that
//! parents come first.
use vstd::prelude::*;
use vstd::string::StringExecFns;
use crate::anim::{AnimationClip, BoneTrack};
use crate::chain;
use crate::mesh::{Influence, RigVertex, SkinnedMesh, VertexInfluences, MAX_INFLUENCES};
use crate::mesh;
use crate::reading;
use crate::scalar::Scalar;
use crate::skeleton::{Bone, Matrix, Skeleton};
use crate::skeleton;
use crate::text;
use super::ImportError;

verus! {

// ── node tree ─────────────────────────────────────────────────────────────────

/// The parent of node `c` after the children of the first `n` nodes are noted:
/// the last of them that names `c` as a child.
pub open spec fn parent_after(children: Seq<Vec<usize>>, c: int, n: nat) -> Option<usize>
    decreases n,
{
    if n == 0 {
        None
    } else if children[n - 1]@.contains(c as usize) {
        Some((n - 1) as usize)
    } else {
        parent_after(children, c, (n - 1) as nat)
    }
}

/// The parent of every node, from the children that each node lists.
pub fn parent_table(children: &Vec<Vec<usize>>) -> (r: Vec<Option<usize>>)
    requires
        forall|i: int, k: int|
            0 <= i < children@.len() && 0 <= k < children@[i]@.len() ==> #[trigger] children@[i]@[k]
                < children@.len(),
    ensures
        r@.len() == children@.len(),
        forall|c: int|
            0 <= c < r@.len() ==> #[trigger] r@[c] == parent_after(
                children@,
                c,
                children@.len(),
            ),
{
    let n: usize = children.len();
    let mut r: Vec<Option<usize>> = Vec::new();
    r.resize(n, None);
    let mut i: usize = 0;
    while i < n
        invariant
            i <= n,
            n == children@.len(),
            r@.len() == n,
            forall|i: int, k: int|
                0 <= i < children@.len() && 0 <= k < children@[i]@.len()
                    ==> #[trigger] children@[i]@[k] < children@.len(),
            forall|c: int|
                0 <= c < n ==> #[trigger] r@[c] == parent_after(children@, c, i as nat),
        decreases n - i,
    {
        let ghost start = r@;
        let ghost list = children@[i as int]@;
        let mut k: usize = 0;
        while k < children[i].len()
            invariant
                i < n,
                n == children@.len(),
                list == children@[i as int]@,
                k <= list.len(),
                r@.len() == n,
                start.len() == n,
                forall|j: int| 0 <= j < list.len() ==> #[trigger] list[j] < n,
                forall|c: int|
                    0 <= c < n ==> #[trigger] r@[c] == (if list.take(k as int).contains(
                        c as usize,
                    ) {
                        Some(i)
                    } else {
                        start[c]
                    }),
            decreases list.len() - k,
        {
            let child: usize = children[i][k];
            assert(list[k as int] == child);
            r[child] = Some(i);
            proof {
                let before = list.take(k as int);
                let after = list.take(k + 1);
                assert forall|x: usize| #[trigger] after.contains(x) <==> before.contains(x) || x
                    == child by {
                    if before.contains(x) {
                        assert(after[before.index_of(x)] == x);
                    }
                    assert(after[k as int] == child);
                    if after.contains(x) && x != child {
                        assert(before[after.index_of(x)] == x);
                    }
                }
            }
            k += 1;
        }
        assert(list.take(k as int) =~= list);
        i += 1;
    }
    r
}

/// The nodes whose transforms compose the global transform of a node, from the
/// root down to the node itself.
pub fn node_path(parents: &Vec<Option<usize>>, node: usize) -> (r: Vec<usize>)
    requires
        chain::has_root(parents@, node as int),
    ensures
        forall|n: nat|
            chain::rooted(parents@, node as int, n) ==> r@ == crate::listing::as_usize(
                #[trigger] chain::ancestry(parents@, node as int, n),
            ),
{
    chain::path_from_root(parents, node)
}

/// The nearest ancestor that is a joint, for a node rooted in `n` steps.
pub open spec fn nearest_joint(
    parents: Seq<Option<usize>>,
    joints: Seq<usize>,
    node: int,
    n: nat,
) -> Option<usize>
    decreases n,
{
    match parents[node] {
        Some(p) if n > 0 => {
            if joints.contains(p) {
                Some(p)
            } else {
                nearest_joint(parents, joints, p as int, (n - 1) as nat)
            }
        },
        _ => None,
    }
}

/// The position of a node among the joints.
pub open spec fn joint_number(joints: Seq<usize>, node: usize) -> Option<usize> {
    if joints.contains(node) {
        Some(joints.index_of(node) as usize)
    } else {
        None
    }
}

proof fn nearest_same(parents: Seq<Option<usize>>, joints: Seq<usize>, node: int, n: nat, m: nat)
    requires
        chain::rooted(parents, node, n),
        chain::rooted(parents, node, m),
    ensures
        nearest_joint(parents, joints, node, n) == nearest_joint(parents, joints, node, m),
    decreases n,
{
    if let Some(p) = parents[node] {
        if !joints.contains(p) {
            nearest_same(parents, joints, p as int, (n - 1) as nat, (m - 1) as nat);
        }
    }
}

fn find_joint(joints: &Vec<usize>, node: usize) -> (r: Option<usize>)
    requires
        joints@.no_duplicates(),
    ensures
        r == joint_number(joints@, node),
        r matches Some(k) ==> k < joints@.len() && joints@[k as int] == node,
{
    let mut k: usize = 0;
    while k < joints.len()
        invariant
            k <= joints@.len(),
            joints@.no_duplicates(),
            forall|j: int| 0 <= j < k ==> joints@[j] != node,
        decreases joints@.len() - k,
    {
        if joints[k] == node {
            assert(joints@.contains(node));
            assert(joints@.index_of(node) == k);
            return Some(k);
        }
        k += 1;
    }
    None
}

/// Whether every joint is a node with a root, and no node is listed twice.
pub open spec fn joints_fit(parents: Seq<Option<usize>>, joints: Seq<usize>) -> bool {
    &&& joints.no_duplicates()
    &&& forall|k: int|
        0 <= k < joints.len() ==> #[trigger] chain::has_root(parents, joints[k] as int)
}

/// The parent joint of joint `k`, by its position among the joints.
pub open spec fn parent_joint(parents: Seq<Option<usize>>, joints: Seq<usize>, k: int) -> Option<
    usize,
> {
    let n = choose|n: nat| chain::rooted(parents, joints[k] as int, n);
    match nearest_joint(parents, joints, joints[k] as int, n) {
        Some(p) => joint_number(joints, p),
        None => None,
    }
}

fn find_parent_joint(parents: &Vec<Option<usize>>, joints: &Vec<usize>, k: usize) -> (r: Option<
    usize,
>)
    requires
        joints_fit(parents@, joints@),
        k < joints@.len(),
    ensures
        r == parent_joint(parents@, joints@, k as int),
        r matches Some(p) ==> p < joints@.len(),
{
    let node: usize = joints[k];
    assert(chain::has_root(parents@, joints@[k as int] as int));
    let ghost steps = choose|n: nat| chain::rooted(parents@, node as int, n);
    let ghost answer = nearest_joint(parents@, joints@, node as int, steps);
    let mut at: usize = node;
    let ghost mut left = steps;
    loop
        invariant
            joints@.no_duplicates(),
            chain::rooted(parents@, at as int, left),
            nearest_joint(parents@, joints@, at as int, left) == answer,
            parent_joint(parents@, joints@, k as int) == (match answer {
                Some(p) => joint_number(joints@, p),
                None => None,
            }),
        decreases left,
    {
        match parents[at] {
            Some(p) => {
                let number = find_joint(joints, p);
                if number.is_some() {
                    return number;
                }
                at = p;
                proof {
                    left = (left - 1) as nat;
                }
            },
            None => {
                return None;
            },
        }
    }
}

/// The parent joint of every joint, by position among the joints.
pub open spec fn joint_parents(parents: Seq<Option<usize>>, joints: Seq<usize>) -> Seq<
    Option<usize>,
> {
    Seq::new(joints.len(), |k: int| parent_joint(parents, joints, k))
}

/// Find the parent joint of every joint.
pub fn parent_joints(parents: &Vec<Option<usize>>, joints: &Vec<usize>) -> (r: Vec<Option<usize>>)
    requires
        joints_fit(parents@, joints@),
    ensures
        r@ == joint_parents(parents@, joints@),
        forall|k: int|
            0 <= k < r@.len() ==> (#[trigger] r@[k] matches Some(p) ==> p < r@.len()),
{
    let mut r: Vec<Option<usize>> = Vec::new();
    let mut k: usize = 0;
    while k < joints.len()
        invariant
            k <= joints@.len(),
            joints_fit(parents@, joints@),
            r@.len() == k,
            forall|j: int| 0 <= j < k ==> #[trigger] r@[j] == parent_joint(parents@, joints@, j),
            forall|j: int| 0 <= j < k ==> (#[trigger] r@[j] matches Some(p) ==> p < joints@.len()),
        decreases joints@.len() - k,
    {
        r.push(find_parent_joint(parents, joints, k));
        k += 1;
    }
    assert(r@ =~= joint_parents(parents@, joints@));
    r
}

proof fn nearest_is_closer(
    parents: Seq<Option<usize>>,
    joints: Seq<usize>,
    node: int,
    n: nat,
)
    requires
        chain::rooted(parents, node, n),
        nearest_joint(parents, joints, node, n) is Some,
    ensures
        joints.contains(nearest_joint(parents, joints, node, n)->0),
        n > 0,
        chain::rooted(parents, nearest_joint(parents, joints, node, n)->0 as int, (n - 1) as nat),
    decreases n,
{
    if let Some(p) = parents[node] {
        if !joints.contains(p) {
            nearest_is_closer(parents, joints, p as int, (n - 1) as nat);
            let q = nearest_joint(parents, joints, p as int, (n - 1) as nat)->0;
            chain::rooted_more(parents, q as int, (n - 2) as nat, (n - 1) as nat);
        }
    }
}

proof fn joint_is_rooted(parents: Seq<Option<usize>>, joints: Seq<usize>, k: int, n: nat)
    requires
        joints_fit(parents, joints),
        0 <= k < joints.len(),
        chain::rooted(parents, joints[k] as int, n),
        joints.len() <= usize::MAX,
    ensures
        chain::rooted(joint_parents(parents, joints), k, n),
    decreases n,
{
    let links = joint_parents(parents, joints);
    let m = choose|m: nat| chain::rooted(parents, joints[k] as int, m);
    nearest_same(parents, joints, joints[k] as int, n, m);
    if let Some(q) = links[k] {
        nearest_is_closer(parents, joints, joints[k] as int, n);
        let p = nearest_joint(parents, joints, joints[k] as int, n)->0;
        assert(joints[joints.index_of(p)] == p);
        joint_is_rooted(parents, joints, joints.index_of(p), (n - 1) as nat);
    }
}

/// Parent joints never run in a circle.
pub proof fn joints_have_roots(parents: Seq<Option<usize>>, joints: Seq<usize>)
    requires
        joints_fit(parents, joints),
        joints.len() <= usize::MAX,
    ensures
        chain::all_rooted(joint_parents(parents, joints)),
{
    assert forall|k: int| 0 <= k < joints.len() implies #[trigger] chain::has_root(
        joint_parents(parents, joints),
        k,
    ) by {
        assert(chain::has_root(parents, joints[k] as int));
        let n = choose|n: nat| chain::rooted(parents, joints[k] as int, n);
        joint_is_rooted(parents, joints, k, n);
    }
}

// ── skeleton ──────────────────────────────────────────────────────────────────

/// Order joints so that each parent precedes its children; `links` holds the
/// parent joint of each joint. Returns positions among the joints.
pub fn topo_order(links: &Vec<Option<usize>>) -> (order: Vec<usize>)
    requires
        forall|i: int|
            0 <= i < links@.len() ==> (#[trigger] links@[i] matches Some(p) ==> p < links@.len()),
    ensures
        order@.map_values(|u: usize| u as int) == chain::order_of(links@),
{
    chain::parents_first(links)
}

/// The bone that joint `k` becomes: its place in the order, as a 16-bit number.
pub open spec fn bone_of_joint(links: Seq<Option<usize>>, k: int) -> u16 {
    chain::order_of(links).index_of(k) as u16
}

/// The name of bone `i`, which joint `k` becomes: the joint's own name, or one
/// made from the bone's number.
pub open spec fn bone_name(name: Option<String>, i: int) -> Seq<char> {
    match name {
        Some(s) => s@,
        None => "bone"@ + text::decimal(i as nat),
    }
}

/// Whether a bone list is the one made from the joints.
pub open spec fn bones_from_joints(
    bones: Seq<Bone>,
    links: Seq<Option<usize>>,
    names: Seq<Option<String>>,
    local_binds: Seq<Matrix>,
) -> bool {
    let order = chain::order_of(links);
    &&& bones.len() == links.len()
    &&& forall|i: int|
        0 <= i < bones.len() ==> {
            &&& (#[trigger] bones[i]).name@ == bone_name(names[order[i]], i)
            &&& bones[i].parent == (match links[order[i]] {
                Some(p) => Some(bone_of_joint(links, p as int) as usize),
                None => None,
            })
            &&& bones[i].local_bind == local_binds[order[i]]
        }
}

/// Where each joint stands in the order.
fn places(order: &Vec<usize>, links: &Vec<Option<usize>>) -> (r: Vec<u16>)
    requires
        order@.map_values(|u: usize| u as int) == chain::order_of(links@),
    ensures
        r@.len() == links@.len(),
        forall|k: int| 0 <= k < r@.len() ==> #[trigger] r@[k] == bone_of_joint(links@, k),
{
    let ghost list = chain::order_of(links@);
    proof {
        chain::order_is_a_permutation(links@);
    }
    let n: usize = links.len();
    let mut r: Vec<u16> = Vec::new();
    r.resize(n, 0);
    let mut i: usize = 0;
    while i < order.len()
        invariant
            i <= order@.len(),
            n == links@.len(),
            list == chain::order_of(links@),
            list == order@.map_values(|u: usize| u as int),
            list.no_duplicates(),
            forall|k: int| 0 <= k < list.len() ==> 0 <= #[trigger] list[k] < n,
            r@.len() == n,
            forall|j: int| 0 <= j < i ==> r@[#[trigger] list[j]] == j as u16,
        decreases order@.len() - i,
    {
        let k: usize = order[i];
        assert(list[i as int] == k);
        r[k] = i as u16;
        i += 1;
    }
    assert forall|k: int| 0 <= k < n implies #[trigger] r@[k] == bone_of_joint(links@, k) by {
        assert(list.contains(k));
        assert(list[list.index_of(k)] == k);
    }
    r
}

proof fn bones_are_topological(
    bones: Seq<Bone>,
    links: Seq<Option<usize>>,
    names: Seq<Option<String>>,
    local_binds: Seq<Matrix>,
)
    requires
        bones_from_joints(bones, links, names, local_binds),
        chain::all_rooted(links),
    ensures
        skeleton::topological(bones),
{
    let order = chain::order_of(links);
    chain::order_is_a_permutation(links);
    chain::order_puts_parents_first(links);
    assert forall|i: int| 0 <= i < bones.len() implies !skeleton::misplaced(bones, i) by {
        let b = bones[i];
        assert(links[order[i]] matches Some(p) ==> order.take(i).contains(p as int));
        if let Some(p) = links[order[i]] {
            let before = order.take(i);
            let j = before.index_of(p as int);
            assert(before[j] == p as int && order[j] == p as int);
            assert(order.contains(p as int));
            let q = order.index_of(p as int);
            assert(order[q] == p as int && q == j);
            lemma_u16_cast_shrinks(q as nat);
        }
    }
}

proof fn lemma_u16_cast_shrinks(n: nat)
    ensures
        (n as u16) as int <= n,
{
}

/// Build a skeleton from joints: `joints` are the joint nodes, `names` their
/// names and `local_binds` their transforms against their parent joints. Bones
/// are ordered parents first. Also returns, for each node, the bone it became.
pub fn build_skeleton_mapped(
    parents: &Vec<Option<usize>>,
    joints: &Vec<usize>,
    names: &Vec<Option<String>>,
    local_binds: &Vec<Matrix>,
) -> (r: (Option<Skeleton>, Vec<Option<u16>>))
    requires
        joints_fit(parents@, joints@),
        names@.len() == joints@.len(),
        local_binds@.len() == joints@.len(),
    ensures
        r.0 is None <==> joints@.len() == 0,
        r.0 matches Some(s) ==> bones_from_joints(
            s.bones@,
            joint_parents(parents@, joints@),
            names@,
            local_binds@,
        ) && skeleton::topological(s.bones@),
        r.1@.len() == parents@.len(),
        forall|node: int|
            0 <= node < r.1@.len() ==> #[trigger] r.1@[node] == (if joints@.contains(
                node as usize,
            ) {
                Some(
                    bone_of_joint(
                        joint_parents(parents@, joints@),
                        joints@.index_of(node as usize),
                    ),
                )
            } else {
                None
            }),
{
    let links = parent_joints(parents, joints);
    let order = topo_order(&links);
    let place = places(&order, &links);
    let ghost list = chain::order_of(links@);
    proof {
        chain::order_is_a_permutation(links@);
    }
    assert forall|j: int| 0 <= j < joints@.len() implies #[trigger] joints@[j] < parents@.len() by {
        assert(chain::has_root(parents@, joints@[j] as int));
    }
    let mut table: Vec<Option<u16>> = Vec::new();
    table.resize(parents.len(), None);
    let mut k: usize = 0;
    while k < joints.len()
        invariant
            k <= joints@.len(),
            joints@.no_duplicates(),
            forall|j: int| 0 <= j < joints@.len() ==> #[trigger] joints@[j] < parents@.len(),
            place@.len() == joints@.len(),
            table@.len() == parents@.len(),
            forall|j: int|
                0 <= j < k ==> table@[#[trigger] joints@[j] as int] == Some(place@[j]),
            forall|node: int|
                0 <= node < table@.len() && !joints@.contains(node as usize)
                    ==> #[trigger] table@[node] is None,
        decreases joints@.len() - k,
    {
        let node: usize = joints[k];
        assert(joints@.contains(node));
        table[node] = Some(place[k]);
        k += 1;
    }
    assert forall|node: int| 0 <= node < table@.len() implies #[trigger] table@[node] == (
    if joints@.contains(node as usize) {
        Some(bone_of_joint(links@, joints@.index_of(node as usize)))
    } else {
        None
    }) by {
        if joints@.contains(node as usize) {
            let j = joints@.index_of(node as usize);
            assert(joints@[j] == node as usize);
        }
    }
    if joints.len() == 0 {
        return (None, table);
    }
    let mut bones: Vec<Bone> = Vec::new();
    let mut i: usize = 0;
    while i < order.len()
        invariant
            i <= order@.len(),
            order@.len() == links@.len(),
            links@.len() == names@.len(),
            links@.len() == local_binds@.len(),
            links@.len() == place@.len(),
            list == chain::order_of(links@),
            list == order@.map_values(|u: usize| u as int),
            forall|k: int| 0 <= k < list.len() ==> 0 <= #[trigger] list[k] < links@.len(),
            forall|k: int|
                0 <= k < links@.len() ==> (#[trigger] links@[k] matches Some(p) ==> p < links@.len()),
            forall|k: int| 0 <= k < place@.len() ==> #[trigger] place@[k] == bone_of_joint(links@, k),
            bones@.len() == i,
            forall|j: int|
                0 <= j < i ==> {
                    &&& (#[trigger] bones@[j]).name@ == bone_name(names@[list[j]], j)
                    &&& bones@[j].parent == (match links@[list[j]] {
                        Some(p) => Some(bone_of_joint(links@, p as int) as usize),
                        None => None,
                    })
                    &&& bones@[j].local_bind == local_binds@[list[j]]
                },
        decreases order@.len() - i,
    {
        let k: usize = order[i];
        assert(list[i as int] == k);
        let name = match &names[k] {
            Some(s) => s.as_str().to_owned(),
            None => {
                let mut made = "bone".to_owned();
                text::push_decimal(&mut made, i as u64);
                made
            },
        };
        let parent = match links[k] {
            Some(p) => Some(place[p] as usize),
            None => None,
        };
        bones.push(Bone { name, parent, local_bind: local_binds[k] });
        i += 1;
    }
    proof {
        joints_have_roots(parents@, joints@);
        bones_are_topological(bones@, links@, names@, local_binds@);
    }
    (Some(Skeleton { bones }), table)
}

/// The bone for joint number `j` after the first `n` joints: that of the last
/// joint whose position has these 16 bits.
pub open spec fn joint_entry(
    joints: Seq<usize>,
    node_to_bone: Seq<Option<u16>>,
    j: int,
    n: nat,
) -> Option<u16>
    decreases n,
{
    if n == 0 {
        None
    } else if (n - 1) % 0x1_0000 == j && node_to_bone[joints[n - 1] as int] is Some {
        node_to_bone[joints[n - 1] as int]
    } else {
        joint_entry(joints, node_to_bone, j, (n - 1) as nat)
    }
}

/// Map each joint number that vertices use to a bone.
pub fn orig_joint_map(joints: &Vec<usize>, node_to_bone: &Vec<Option<u16>>) -> (r: Vec<Option<u16>>)
    requires
        forall|k: int| 0 <= k < joints@.len() ==> #[trigger] joints@[k] < node_to_bone@.len(),
    ensures
        r@.len() == 0x1_0000,
        forall|j: int|
            0 <= j < r@.len() ==> #[trigger] r@[j] == joint_entry(
                joints@,
                node_to_bone@,
                j,
                joints@.len(),
            ),
{
    let mut r: Vec<Option<u16>> = Vec::new();
    r.resize(0x1_0000, None);
    let mut k: usize = 0;
    while k < joints.len()
        invariant
            k <= joints@.len(),
            r@.len() == 0x1_0000,
            forall|k: int| 0 <= k < joints@.len() ==> #[trigger] joints@[k] < node_to_bone@.len(),
            forall|j: int|
                0 <= j < r@.len() ==> #[trigger] r@[j] == joint_entry(
                    joints@,
                    node_to_bone@,
                    j,
                    k as nat,
                ),
        decreases joints@.len() - k,
    {
        assert(joints@[k as int] < node_to_bone@.len());
        let bone = node_to_bone[joints[k]];
        if bone.is_some() {
            r[k % 0x1_0000] = bone;
        }
        k += 1;
    }
    r
}

// ── geometry ──────────────────────────────────────────────────────────────────

/// One primitive of a mesh, as the file holds it.
#[derive(Clone, Debug, PartialEq, Eq)]
pub struct Primitive {
    pub positions: Option<Vec<[Scalar; 3]>>,
    pub normals: Option<Vec<[Scalar; 3]>>,
    pub uvs: Option<Vec<[Scalar; 2]>>,
    pub indices: Option<Vec<u32>>,
    pub joints: Option<Vec<[u16; 4]>>,
    pub weights: Option<Vec<[Scalar; 4]>>,
}

/// Three zeros.
pub open spec fn zero3() -> Seq<Scalar> {
    seq![Scalar::zero(), Scalar::zero(), Scalar::zero()]
}

/// Two zeros.
pub open spec fn zero2() -> Seq<Scalar> {
    seq![Scalar::zero(), Scalar::zero()]
}

/// Whether a vertex is vertex `i` of a primitive; a normal or texture
/// coordinate that the file lacks is zero.
pub open spec fn is_vertex(v: RigVertex, prim: Primitive, i: int) -> bool {
    &&& v.position == prim.positions->0@[i]
    &&& match prim.normals {
        Some(list) if i < list@.len() => v.normal == list@[i],
        _ => v.normal@ == zero3(),
    }
    &&& match prim.uvs {
        Some(list) if i < list@.len() => v.uv == list@[i],
        _ => v.uv@ == zero2(),
    }
}

/// The bone that a stored joint number means.
pub open spec fn mapped_bone(joint: u16, table: Seq<Option<u16>>) -> u16 {
    match table[joint as int] {
        Some(b) => b,
        None => joint,
    }
}

/// The influences that stored joints and weights mean; weights that are not
/// above zero leave their slot unused.
pub open spec fn stored_influences(
    joints: Seq<u16>,
    weights: Seq<Scalar>,
    table: Seq<Option<u16>>,
) -> Seq<Influence> {
    Seq::new(
        4,
        |k: int|
            if Scalar::zero().spec_lt(weights[k]) {
                Influence { bone: mapped_bone(joints[k], table), weight: weights[k] }
            } else {
                Influence::none()
            },
    )
}

/// The influences of vertex `i` of a primitive, before normalisation.
pub open spec fn influences_at(prim: Primitive, table: Seq<Option<u16>>, i: int) -> Seq<Influence> {
    match (prim.joints, prim.weights) {
        (Some(js), Some(ws)) if i < js@.len() && i < ws@.len() => stored_influences(
            js@[i]@,
            ws@[i]@,
            table,
        ),
        _ => seq![Influence::none(), Influence::none(), Influence::none(), Influence::none()],
    }
}

/// The triangle indices of a primitive; without a list the vertices are taken
/// in order.
pub open spec fn indices_of(prim: Primitive) -> Seq<u32> {
    match prim.indices {
        Some(list) => list@,
        None => Seq::new(
            (prim.positions->0@.len() as u32) as nat,
            |i: int| i as u32,
        ),
    }
}

/// Whether a mesh is the one that a primitive describes.
pub open spec fn mesh_of(mesh: SkinnedMesh, prim: Primitive, table: Seq<Option<u16>>) -> bool {
    let n = prim.positions->0@.len();
    &&& mesh.vertices@.len() == n
    &&& mesh.influences@.len() == n
    &&& forall|i: int| 0 <= i < n ==> is_vertex(#[trigger] mesh.vertices@[i], prim, i)
    &&& forall|i: int|
        0 <= i < n ==> (#[trigger] mesh.influences@[i])@ == influences_at(prim, table, i)
    &&& mesh.indices@ == indices_of(prim)
    &&& mesh.cached() is None
}

fn read_vertex(prim: &Primitive, positions: &Vec<[Scalar; 3]>, i: usize) -> (v: RigVertex)
    requires
        prim.positions == Some(*positions),
        i < positions@.len(),
    ensures
        is_vertex(v, *prim, i as int),
{
    let z = Scalar::zero();
    let mut normal: [Scalar; 3] = [z, z, z];
    assert(normal@ =~= zero3());
    if let Some(list) = &prim.normals {
        if i < list.len() {
            normal = list[i];
        }
    }
    let mut uv: [Scalar; 2] = [z, z];
    assert(uv@ =~= zero2());
    if let Some(list) = &prim.uvs {
        if i < list.len() {
            uv = list[i];
        }
    }
    RigVertex { position: positions[i], normal, uv }
}

fn read_influences(joints: &[u16; 4], weights: &[Scalar; 4], table: &Vec<Option<u16>>) -> (r:
    VertexInfluences)
    requires
        table@.len() == 0x1_0000,
    ensures
        r@ == stored_influences(joints@, weights@, table@),
{
    let mut r = mesh::empty_influences();
    let mut k: usize = 0;
    while k < MAX_INFLUENCES
        invariant
            k <= MAX_INFLUENCES,
            table@.len() == 0x1_0000,
            joints@.len() == 4,
            weights@.len() == 4,
            r@.len() == 4,
            forall|j: int|
                0 <= j < k ==> #[trigger] r@[j] == stored_influences(joints@, weights@, table@)[j],
            forall|j: int| k <= j < 4 ==> #[trigger] r@[j] == Influence::none(),
        decreases MAX_INFLUENCES - k,
    {
        if weights[k].is_positive() {
            let joint: u16 = joints[k];
            let bone: u16 = match table[joint as usize] {
                Some(b) => b,
                None => joint,
            };
            r[k] = Influence { bone, weight: weights[k] };
        }
        k += 1;
    }
    assert(r@ =~= stored_influences(joints@, weights@, table@));
    r
}

/// Assemble the mesh of a primitive. `table` maps stored joint numbers to bones.
/// A primitive without positions is refused. Weights are kept as stored.
pub fn read_primitive(prim: &Primitive, table: &Vec<Option<u16>>) -> (r: Result<
    SkinnedMesh,
    ImportError,
>)
    requires
        table@.len() == 0x1_0000,
    ensures
        match r {
            Ok(mesh) => prim.positions is Some && mesh_of(mesh, *prim, table@),
            Err(e) => prim.positions is None && e == ImportError::NoGeometry,
        },
{
    let positions = match &prim.positions {
        Some(list) => list,
        None => {
            return Err(ImportError::NoGeometry);
        },
    };
    let count: usize = positions.len();
    let mut vertices: Vec<RigVertex> = Vec::new();
    let mut i: usize = 0;
    while i < count
        invariant
            i <= count,
            count == positions@.len(),
            prim.positions == Some(*positions),
            vertices@.len() == i,
            forall|j: int| 0 <= j < i ==> is_vertex(#[trigger] vertices@[j], *prim, j),
        decreases count - i,
    {
        vertices.push(read_vertex(prim, positions, i));
        i += 1;
    }
    let mut indices: Vec<u32> = Vec::new();
    match &prim.indices {
        Some(list) => {
            let mut k: usize = 0;
            while k < list.len()
                invariant
                    k <= list@.len(),
                    indices@ == list@.take(k as int),
                decreases list@.len() - k,
            {
                indices.push(list[k]);
                assert(indices@ =~= list@.take(k + 1));
                k += 1;
            }
            assert(list@.take(k as int) =~= list@);
        },
        None => {
            let last: u32 = count as u32;
            let mut k: u32 = 0;
            while k < last
                invariant
                    k <= last,
                    indices@ == Seq::new(k as nat, |i: int| i as u32),
                decreases last - k,
            {
                indices.push(k);
                assert(indices@ =~= Seq::new((k + 1) as nat, |i: int| i as u32));
                k += 1;
            }
        },
    }
    let ghost plain = seq![
        Influence::none(),
        Influence::none(),
        Influence::none(),
        Influence::none(),
    ];
    let mut mesh = SkinnedMesh::new(vertices, indices);
    if let Some(joints) = &prim.joints {
        if let Some(weights) = &prim.weights {
            let mut v: usize = 0;
            while v < count && v < joints.len() && v < weights.len()
                invariant
                    v <= count,
                    count == prim.positions->0@.len(),
                    table@.len() == 0x1_0000,
                    prim.joints == Some(*joints),
                    prim.weights == Some(*weights),
                    mesh.vertices == vertices,
                    mesh.indices == indices,
                    mesh.cached() is None,
                    mesh.influences@.len() == count,
                    plain == seq![
                        Influence::none(),
                        Influence::none(),
                        Influence::none(),
                        Influence::none(),
                    ],
                    forall|j: int|
                        0 <= j < v ==> (#[trigger] mesh.influences@[j])@ == influences_at(
                            *prim,
                            table@,
                            j,
                        ),
                    forall|j: int| v <= j < count ==> (#[trigger] mesh.influences@[j])@ == plain,
                decreases count - v,
            {
                mesh.influences[v] = read_influences(&joints[v], &weights[v], table);
                v += 1;
            }
        }
    }
    Ok(mesh)
}

/// The vertices of the first `n` primitives.
pub open spec fn vertices_before(prims: Seq<Primitive>, n: nat) -> nat
    decreases n,
{
    if n == 0 {
        0
    } else {
        vertices_before(prims, (n - 1) as nat) + prims[n - 1].positions->0@.len()
    }
}

/// Where vertex `i` of primitive `k` goes.
pub open spec fn vertex_slot(prims: Seq<Primitive>, k: int, i: int) -> int {
    vertices_before(prims, k as nat) + i
}

/// Whether a mesh holds the first `n` primitives one after the other: their
/// vertices and influences in order, their indices moved up accordingly.
pub open spec fn merges(mesh: SkinnedMesh, prims: Seq<Primitive>, table: Seq<Option<u16>>, n: nat) -> bool {
    &&& mesh.vertices@.len() == vertices_before(prims, n)
    &&& mesh.influences@.len() == vertices_before(prims, n)
    &&& forall|k: int, i: int|
        0 <= k < n && 0 <= i < prims[k].positions->0@.len() ==> {
            let at = #[trigger] vertex_slot(prims, k, i);
            &&& 0 <= at < mesh.vertices@.len()
            &&& is_vertex(mesh.vertices@[at], prims[k], i)
            &&& mesh.influences@[at]@ == influences_at(prims[k], table, i)
        }
    &&& mesh.indices@ == crate::bytes::flat(
        n,
        |k: int| super::offset(indices_of(prims[k]), vertices_before(prims, k as nat)),
    )
    &&& mesh.cached() is None
}

/// Whether the indices of every primitive fit behind the vertices before it.
pub open spec fn indices_fit(prims: Seq<Primitive>) -> bool {
    forall|k: int|
        0 <= k < prims.len() && (#[trigger] prims[k]).positions is Some ==> super::fits_offset(
            indices_of(prims[k]),
            vertices_before(prims, k as nat),
        )
}

proof fn merged_step(
    front: SkinnedMesh,
    added: SkinnedMesh,
    after: SkinnedMesh,
    prims: Seq<Primitive>,
    table: Seq<Option<u16>>,
    k: int,
)
    requires
        0 <= k < prims.len(),
        merges(front, prims, table, k as nat),
        mesh_of(added, prims[k], table),
        after.vertices@ == front.vertices@ + added.vertices@,
        after.influences@ == front.influences@ + added.influences@,
        after.indices@ == front.indices@ + super::offset(added.indices@, front.vertices@.len()),
        after.cached() is None,
    ensures
        merges(after, prims, table, (k + 1) as nat),
{
    let base = vertices_before(prims, k as nat);
    let f = |k: int| super::offset(indices_of(prims[k]), vertices_before(prims, k as nat));
    assert(f(k) == super::offset(indices_of(prims[k]), base));
    assert(after.indices@ == crate::bytes::flat((k + 1) as nat, f));
    assert forall|j: int, i: int|
        0 <= j < k + 1 && 0 <= i < prims[j].positions->0@.len() implies {
        let at = #[trigger] vertex_slot(prims, j, i);
        &&& 0 <= at < after.vertices@.len()
        &&& is_vertex(after.vertices@[at], prims[j], i)
        &&& after.influences@[at]@ == influences_at(prims[j], table, i)
    } by {
        let at = vertex_slot(prims, j, i);
        if j < k {
            assert(0 <= at < front.vertices@.len());
            assert(after.vertices@[at] == front.vertices@[at]);
            assert(after.influences@[at] == front.influences@[at]);
        } else {
            assert(at == base + i);
            assert(after.vertices@[at] == added.vertices@[i]);
            assert(after.influences@[at] == added.influences@[i]);
        }
    }
}

/// Merge all primitives into one mesh. A primitive without positions is
/// refused, and so is a file without vertices.
pub fn merge_primitives(prims: &Vec<Primitive>, table: &Vec<Option<u16>>) -> (r: Result<
    SkinnedMesh,
    ImportError,
>)
    requires
        table@.len() == 0x1_0000,
        indices_fit(prims@),
    ensures
        match r {
            Ok(mesh) => {
                &&& forall|k: int| 0 <= k < prims@.len() ==> (#[trigger] prims@[k]).positions is Some
                &&& vertices_before(prims@, prims@.len()) > 0
                &&& merges(mesh, prims@, table@, prims@.len())
            },
            Err(e) => e == ImportError::NoGeometry && ((exists|k: int|
                0 <= k < prims@.len() && (#[trigger] prims@[k]).positions is None)
                || vertices_before(prims@, prims@.len()) == 0),
        },
{
    let mut mesh = SkinnedMesh::default();
    let mut k: usize = 0;
    assert(mesh.indices@ =~= Seq::empty());
    while k < prims.len()
        invariant
            k <= prims@.len(),
            table@.len() == 0x1_0000,
            indices_fit(prims@),
            forall|j: int| 0 <= j < k ==> (#[trigger] prims@[j]).positions is Some,
            merges(mesh, prims@, table@, k as nat),
        decreases prims@.len() - k,
    {
        match read_primitive(&prims[k], table) {
            Ok(part) => {
                let ghost front = mesh;
                let ghost added = part;
                let ghost base = vertices_before(prims@, k as nat);
                assert(super::fits_offset(indices_of(prims@[k as int]), base));
                super::append_mesh(&mut mesh, part);
                proof {
                    merged_step(front, added, mesh, prims@, table@, k as int);
                }
            },
            Err(e) => {
                return Err(e);
            },
        }
        k += 1;
    }
    if mesh.vertices.len() == 0 {
        return Err(ImportError::NoGeometry);
    }
    Ok(mesh)
}

// ── animation ─────────────────────────────────────────────────────────────────

/// The key values of a channel.
#[derive(Clone, Debug, PartialEq, Eq)]
pub enum ChannelOutputs {
    Translations(Vec<[Scalar; 3]>),
    Rotations(Vec<[Scalar; 4]>),
    Scales(Vec<[Scalar; 3]>),
    /// Morph weights, which no bone track holds.
    MorphWeights,
}

/// One channel of an animation, as the file holds it.
#[derive(Clone, Debug, PartialEq, Eq)]
pub struct Channel {
    /// The node whose transform the channel drives.
    pub node: usize,
    pub times: Option<Vec<Scalar>>,
    pub outputs: Option<ChannelOutputs>,
}

/// One animation, as the file holds it.
#[derive(Clone, Debug, PartialEq, Eq)]
pub struct Animation {
    pub name: Option<String>,
    pub channels: Vec<Channel>,
}

/// Key times and key values paired up; surplus ones are dropped.
pub open spec fn paired<T>(times: Seq<Scalar>, values: Seq<T>) -> Seq<(Scalar, T)> {
    Seq::new(
        if times.len() < values.len() {
            times.len()
        } else {
            values.len()
        },
        |i: int| (times[i], values[i]),
    )
}

/// The bone that a channel keys: none if its node is no joint or it lacks
/// times or values.
pub open spec fn keyed_bone(channel: Channel, node_to_bone: Seq<Option<u16>>) -> Option<u16> {
    if channel.node < node_to_bone.len() && channel.times is Some && channel.outputs is Some {
        node_to_bone[channel.node as int]
    } else {
        None
    }
}

/// The keys of a bone.
#[verifier::ext_equal]
pub ghost struct Keys {
    pub translation: Seq<(Scalar, [Scalar; 3])>,
    pub rotation: Seq<(Scalar, [Scalar; 4])>,
    pub scale: Seq<(Scalar, [Scalar; 3])>,
}

/// The keys of a track.
pub open spec fn keys_of(track: BoneTrack) -> Keys {
    Keys {
        translation: track.translation@,
        rotation: track.rotation@,
        scale: track.scale@,
    }
}

/// No keys at all.
pub open spec fn no_keys() -> Keys {
    Keys { translation: Seq::empty(), rotation: Seq::empty(), scale: Seq::empty() }
}

/// The keys of a bone after a channel that keys it.
pub open spec fn keys_with(keys: Keys, channel: Channel) -> Keys {
    let times = channel.times->0@;
    match channel.outputs->0 {
        ChannelOutputs::Translations(v) => Keys { translation: paired(times, v@), ..keys },
        ChannelOutputs::Rotations(v) => Keys { rotation: paired(times, v@), ..keys },
        ChannelOutputs::Scales(v) => Keys { scale: paired(times, v@), ..keys },
        ChannelOutputs::MorphWeights => keys,
    }
}

/// The keys that the first `n` channels give a bone; a later channel replaces
/// what an earlier one of its kind gave. `None` if none of them keys the bone.
pub open spec fn bone_keys(
    channels: Seq<Channel>,
    node_to_bone: Seq<Option<u16>>,
    bone: u16,
    n: nat,
) -> Option<Keys>
    decreases n,
{
    if n == 0 {
        None
    } else {
        let before = bone_keys(channels, node_to_bone, bone, (n - 1) as nat);
        if keyed_bone(channels[n - 1], node_to_bone) == Some(bone) {
            Some(
                keys_with(
                    match before {
                        Some(k) => k,
                        None => no_keys(),
                    },
                    channels[n - 1],
                ),
            )
        } else {
            before
        }
    }
}

/// Whether tracks hold, in ascending bone order, the keys of exactly the bones
/// that the first `n` channels key.
pub open spec fn tracks_hold(
    tracks: Seq<BoneTrack>,
    channels: Seq<Channel>,
    node_to_bone: Seq<Option<u16>>,
    n: nat,
) -> bool {
    &&& forall|i: int, j: int| 0 <= i < j < tracks.len() ==> tracks[i].bone < tracks[j].bone
    &&& forall|i: int|
        0 <= i < tracks.len() ==> bone_keys(
            channels,
            node_to_bone,
            (#[trigger] tracks[i]).bone,
            n,
        ) == Some(keys_of(tracks[i]))
    &&& forall|bone: u16|
        #[trigger] bone_keys(channels, node_to_bone, bone, n) is Some ==> has_track(tracks, bone)
}

/// Whether some track belongs to a bone.
pub open spec fn has_track(tracks: Seq<BoneTrack>, bone: u16) -> bool {
    exists|i: int| 0 <= i < tracks.len() && (#[trigger] tracks[i]).bone == bone
}

fn pair_up<T: Copy>(times: &Vec<Scalar>, values: &Vec<T>) -> (r: Vec<(Scalar, T)>)
    ensures
        r@ == paired(times@, values@),
{
    let mut r: Vec<(Scalar, T)> = Vec::new();
    let mut i: usize = 0;
    while i < times.len() && i < values.len()
        invariant
            i <= times@.len(),
            i <= values@.len(),
            r@.len() == i,
            forall|j: int| 0 <= j < i ==> #[trigger] r@[j] == (times@[j], values@[j]),
        decreases times@.len() - i,
    {
        r.push((times[i], values[i]));
        i += 1;
    }
    assert(r@ =~= paired(times@, values@));
    r
}

fn track_index(tracks: &mut Vec<BoneTrack>, bone: u16) -> (at: usize)
    requires
        forall|i: int, j: int|
            0 <= i < j < old(tracks)@.len() ==> old(tracks)@[i].bone < old(tracks)@[j].bone,
    ensures
        at < final(tracks)@.len(),
        final(tracks)@[at as int].bone == bone,
        forall|i: int, j: int|
            0 <= i < j < final(tracks)@.len() ==> final(tracks)@[i].bone < final(tracks)@[j].bone,
        has_track(old(tracks)@, bone) ==> final(tracks)@ == old(tracks)@,
        !has_track(old(tracks)@, bone) ==> keys_of(final(tracks)@[at as int]) == no_keys()
            && final(tracks)@.len() == old(tracks)@.len() + 1 && final(tracks)@.remove(at as int)
            == old(tracks)@,
{
    let mut at: usize = 0;
    while at < tracks.len() && tracks[at].bone < bone
        invariant
            at <= tracks@.len(),
            tracks@ == old(tracks)@,
            forall|i: int| 0 <= i < at ==> (#[trigger] tracks@[i]).bone < bone,
        decreases tracks@.len() - at,
    {
        at += 1;
    }
    if at < tracks.len() && tracks[at].bone == bone {
        return at;
    }
    let empty = BoneTrack::new(bone);
    proof {
        if has_track(tracks@, bone) {
            let i = choose|i: int| 0 <= i < tracks@.len() && (#[trigger] tracks@[i]).bone == bone;
            if i > at {
                assert(tracks@[at as int].bone < tracks@[i].bone);
            }
            assert(false);
        }
    }
    tracks.insert(at, empty);
    proof {
        assert(tracks@.remove(at as int) =~= old(tracks)@);
        assert forall|i: int, j: int| 0 <= i < j < tracks@.len() implies tracks@[i].bone
            < tracks@[j].bone by {
            let before = old(tracks)@;
            let i0 = if i < at { i } else { i - 1 };
            let j0 = if j < at { j } else { j - 1 };
            if i == at {
                assert(tracks@[j] == before[j0]);
                if j0 > at {
                    assert(before[at as int].bone < before[j0].bone);
                }
            } else if j == at {
                assert(tracks@[i] == before[i0]);
            } else {
                assert(tracks@[i] == before[i0] && tracks@[j] == before[j0]);
            }
        }
        assert(keys_of(tracks@[at as int]) =~= no_keys());
    }
    at
}

proof fn keys_elsewhere(
    channels: Seq<Channel>,
    node_to_bone: Seq<Option<u16>>,
    n: nat,
    bone: u16,
)
    requires
        keyed_bone(channels[n as int], node_to_bone) != Some(bone),
    ensures
        bone_keys(channels, node_to_bone, bone, n + 1) == bone_keys(channels, node_to_bone, bone, n),
{
}

proof fn tracks_step(
    before: Seq<BoneTrack>,
    opened: Seq<BoneTrack>,
    after: Seq<BoneTrack>,
    at: int,
    channels: Seq<Channel>,
    node_to_bone: Seq<Option<u16>>,
    n: nat,
    bone: u16,
)
    requires
        tracks_hold(before, channels, node_to_bone, n),
        keyed_bone(channels[n as int], node_to_bone) == Some(bone),
        0 <= at < opened.len(),
        opened[at].bone == bone,
        forall|i: int, j: int| 0 <= i < j < opened.len() ==> opened[i].bone < opened[j].bone,
        has_track(before, bone) ==> opened == before,
        !has_track(before, bone) ==> keys_of(opened[at]) == no_keys() && opened.len()
            == before.len() + 1 && opened.remove(at) == before,
        after.len() == opened.len(),
        forall|i: int| 0 <= i < opened.len() && i != at ==> after[i] == opened[i],
        after[at].bone == bone,
        keys_of(after[at]) == keys_with(keys_of(opened[at]), channels[n as int]),
    ensures
        tracks_hold(after, channels, node_to_bone, n + 1),
{
    assert(bone_keys(channels, node_to_bone, bone, n) == (if has_track(before, bone) {
        Some(keys_of(opened[at]))
    } else {
        None
    })) by {
        if has_track(before, bone) {
            assert(before[at].bone == bone);
        }
    }
    assert forall|i: int| 0 <= i < after.len() implies bone_keys(
        channels,
        node_to_bone,
        (#[trigger] after[i]).bone,
        n + 1,
    ) == Some(keys_of(after[i])) by {
        if i != at {
            let b = after[i].bone;
            assert(opened[i].bone == b && b != bone) by {
                if i < at {
                    assert(opened[i].bone < opened[at].bone);
                } else {
                    assert(opened[at].bone < opened[i].bone);
                }
            }
            keys_elsewhere(channels, node_to_bone, n, b);
            if has_track(before, bone) {
                assert(before[i] == after[i]);
            } else {
                let k = if i < at { i } else { i - 1 };
                assert(opened.remove(at)[k] == opened[i]);
                assert(before[k] == after[i]);
            }
        }
    }
    assert forall|b: u16| #[trigger]
        bone_keys(channels, node_to_bone, b, n + 1) is Some implies has_track(after, b) by {
        if b == bone {
            assert(after[at].bone == b);
        } else {
            keys_elsewhere(channels, node_to_bone, n, b);
            let k = choose|k: int| 0 <= k < before.len() && (#[trigger] before[k]).bone == b;
            if has_track(before, bone) {
                assert(after[k].bone == b);
            } else {
                let i = if k < at { k } else { k + 1 };
                assert(opened.remove(at)[k] == opened[i]);
                assert(after[i].bone == b);
            }
        }
    }
    assert forall|i: int, j: int| 0 <= i < j < after.len() implies after[i].bone < after[j].bone by {
        assert(opened[i].bone < opened[j].bone);
    }
}

/// Collect the tracks of an animation: one per keyed bone, in ascending bone
/// order. Channels of nodes that are no joints are skipped.
pub fn collect_tracks(channels: &Vec<Channel>, node_to_bone: &Vec<Option<u16>>) -> (r: Vec<BoneTrack>)
    ensures
        tracks_hold(r@, channels@, node_to_bone@, channels@.len()),
{
    let mut r: Vec<BoneTrack> = Vec::new();
    let mut n: usize = 0;
    while n < channels.len()
        invariant
            n <= channels@.len(),
            tracks_hold(r@, channels@, node_to_bone@, n as nat),
        decreases channels@.len() - n,
    {
        let channel = &channels[n];
        let ghost before = r@;
        let mut target: Option<u16> = None;
        if channel.node < node_to_bone.len() {
            target = node_to_bone[channel.node];
        }
        let mut done = false;
        if let Some(bone) = target {
            if let Some(times) = &channel.times {
                if let Some(outputs) = &channel.outputs {
                    let at = track_index(&mut r, bone);
                    let ghost opened = r@;
                    match outputs {
                        ChannelOutputs::Translations(v) => {
                            r[at].translation = pair_up(times, v);
                        },
                        ChannelOutputs::Rotations(v) => {
                            r[at].rotation = pair_up(times, v);
                        },
                        ChannelOutputs::Scales(v) => {
                            r[at].scale = pair_up(times, v);
                        },
                        ChannelOutputs::MorphWeights => {},
                    }
                    done = true;
                    proof {
                        assert(keys_of(r@[at as int]) =~= keys_with(
                            keys_of(opened[at as int]),
                            channels@[n as int],
                        ));
                        tracks_step(
                            before,
                            opened,
                            r@,
                            at as int,
                            channels@,
                            node_to_bone@,
                            n as nat,
                            bone,
                        );
                    }
                }
            }
        }
        if !done {
            proof {
                assert(keyed_bone(channels@[n as int], node_to_bone@) is None);
                assert forall|b: u16| #[trigger]
                    bone_keys(channels@, node_to_bone@, b, (n + 1) as nat) == bone_keys(
                        channels@,
                        node_to_bone@,
                        b,
                        n as nat,
                    ) by {
                    keys_elsewhere(channels@, node_to_bone@, n as nat, b);
                }
            }
        }
        n += 1;
    }
    r
}

/// The name of animation `i`: its own, or one made from its number.
pub open spec fn animation_name(name: Option<String>, i: int) -> Seq<char> {
    match name {
        Some(s) => s@,
        None => "animation"@ + text::decimal(i as nat),
    }
}

/// Collect all animations of a file. Without a skeleton there are no joints to
/// key, and so no clips.
pub fn collect_clips(animations: &Vec<Animation>, node_to_bone: &Option<Vec<Option<u16>>>) -> (r: Vec<
    AnimationClip,
>)
    ensures
        match node_to_bone {
            None => r@.len() == 0,
            Some(map) => {
                &&& r@.len() == animations@.len()
                &&& forall|i: int|
                    0 <= i < r@.len() ==> (#[trigger] r@[i]).name@ == animation_name(
                        animations@[i].name,
                        i,
                    ) && tracks_hold(
                        r@[i].tracks@,
                        animations@[i].channels@,
                        map@,
                        animations@[i].channels@.len(),
                    )
            },
        },
{
    let mut r: Vec<AnimationClip> = Vec::new();
    if let Some(map) = node_to_bone {
        let mut i: usize = 0;
        while i < animations.len()
            invariant
                i <= animations@.len(),
                r@.len() == i,
                forall|j: int|
                    0 <= j < i ==> (#[trigger] r@[j]).name@ == animation_name(
                        animations@[j].name,
                        j,
                    ) && tracks_hold(
                        r@[j].tracks@,
                        animations@[j].channels@,
                        map@,
                        animations@[j].channels@.len(),
                    ),
            decreases animations@.len() - i,
        {
            let name = match &animations[i].name {
                Some(s) => s.as_str().to_owned(),
                None => {
                    let mut made = "animation".to_owned();
                    text::push_decimal(&mut made, i as u64);
                    made
                },
            };
            let tracks = collect_tracks(&animations[i].channels, map);
            r.push(AnimationClip { name, tracks });
            i += 1;
        }
    }
    r
}

// ── what holds of them ────────────────────────────────────────────────────────

/// A node has a parent exactly if some node lists it as a child; its parent is
/// the last that does.
pub proof fn parents_list_their_children(children: Seq<Vec<usize>>, c: usize, n: nat)
    requires
        n <= children.len() <= usize::MAX,
    ensures
        match parent_after(children, c as int, n) {
            Some(p) => p < n && children[p as int]@.contains(c) && forall|q: int|
                p < q < n ==> !(#[trigger] children[q])@.contains(c),
            None => forall|q: int| 0 <= q < n ==> !(#[trigger] children[q])@.contains(c),
        },
    decreases n,
{
    if n > 0 {
        parents_list_their_children(children, c, (n - 1) as nat);
    }
}

/// The node that many steps above a node, if the links lead so far.
pub open spec fn above(parents: Seq<Option<usize>>, node: int, steps: nat) -> Option<int>
    decreases steps,
{
    if steps == 0 {
        Some(node)
    } else {
        match parents[node] {
            Some(p) => above(parents, p as int, (steps - 1) as nat),
            None => None,
        }
    }
}

/// Whether the node that many steps above a node is a joint.
pub open spec fn joint_above(
    parents: Seq<Option<usize>>,
    joints: Seq<usize>,
    node: int,
    steps: nat,
) -> bool {
    above(parents, node, steps) matches Some(a) && joints.contains(a as usize)
}

/// The nearest joint lies some steps above a node, and no joint lies fewer
/// steps above it; where none is found, no joint lies above it at all.
pub proof fn no_joint_is_nearer(
    parents: Seq<Option<usize>>,
    joints: Seq<usize>,
    node: int,
    n: nat,
) -> (steps: nat)
    requires
        chain::rooted(parents, node, n),
    ensures
        match nearest_joint(parents, joints, node, n) {
            Some(p) => {
                &&& steps > 0
                &&& above(parents, node, steps) == Some(p as int)
                &&& joints.contains(p)
                &&& forall|m: nat|
                    0 < m < steps ==> !#[trigger] joint_above(parents, joints, node, m)
            },
            None => forall|m: nat| 0 < m ==> !#[trigger] joint_above(parents, joints, node, m),
        },
    decreases n,
{
    match parents[node] {
        Some(p) => {
            if joints.contains(p) {
                assert(above(parents, p as int, 0) == Some(p as int));
                1
            } else {
                let more = no_joint_is_nearer(parents, joints, p as int, (n - 1) as nat);
                assert(above(parents, p as int, 0) == Some(p as int));
                assert(!joint_above(parents, joints, node, 1)) by {
                    assert(above(parents, node, 1) == above(parents, p as int, 0));
                }
                let steps = more + 1;
                assert forall|m: nat|
                    0 < m && (nearest_joint(parents, joints, node, n) is None || m
                        < steps) implies !#[trigger] joint_above(parents, joints, node, m) by {
                    if m > 1 {
                        assert(above(parents, node, m) == above(parents, p as int, (m - 1) as nat));
                        assert(!joint_above(parents, joints, p as int, (m - 1) as nat));
                    }
                }
                steps
            }
        },
        None => {
            assert forall|m: nat| 0 < m implies !#[trigger] joint_above(
                parents,
                joints,
                node,
                m,
            ) by {}
            0
        },
    }
}

/// The parent of a joint is the nearest joint above it, given by its position
/// among the joints.
pub proof fn parent_joints_are_nearest(parents: Seq<Option<usize>>, joints: Seq<usize>, k: int) -> (
    steps: nat)
    requires
        joints_fit(parents, joints),
        0 <= k < joints.len() <= usize::MAX,
    ensures
        match parent_joint(parents, joints, k) {
            Some(j) => {
                &&& j < joints.len()
                &&& steps > 0
                &&& above(parents, joints[k] as int, steps) == Some(joints[j as int] as int)
                &&& forall|m: nat|
                    0 < m < steps ==> !#[trigger] joint_above(parents, joints, joints[k] as int, m)
            },
            None => forall|m: nat|
                0 < m ==> !#[trigger] joint_above(parents, joints, joints[k] as int, m),
        },
{
    assert(chain::has_root(parents, joints[k] as int));
    let n = choose|n: nat| chain::rooted(parents, joints[k] as int, n);
    let steps = no_joint_is_nearer(parents, joints, joints[k] as int, n);
    if let Some(p) = nearest_joint(parents, joints, joints[k] as int, n) {
        assert(joints.contains(p));
        assert(joints[joints.index_of(p)] == p);
    }
    steps
}

/// Every joint becomes one bone of its own, with the joint's transform, with its
/// name where it has one, and with the bone of its parent joint as parent.
pub proof fn joints_become_their_bones(
    bones: Seq<Bone>,
    links: Seq<Option<usize>>,
    names: Seq<Option<String>>,
    local_binds: Seq<Matrix>,
    k: int,
    j: int,
)
    requires
        bones_from_joints(bones, links, names, local_binds),
        links.len() <= 0x1_0000,
        0 <= k < links.len(),
        0 <= j < links.len(),
    ensures
        ({
            let b = bone_of_joint(links, k);
            &&& b < bones.len()
            &&& names[k] matches Some(s) ==> bones[b as int].name@ == s@
            &&& bones[b as int].local_bind == local_binds[k]
            &&& links[k] is None ==> bones[b as int].parent is None
            &&& links[k] == Some(j as usize) ==> bones[b as int].parent == Some(
                bone_of_joint(links, j) as usize,
            )
            &&& j != k ==> bone_of_joint(links, j) != b
        }),
{
    let order = chain::order_of(links);
    chain::order_is_a_permutation(links);
    assert(order.contains(k) && order.contains(j));
    let b = order.index_of(k);
    assert(order[b] == k && order[order.index_of(j)] == j);
    let bone = bones[b];
}

/// Bones and animations without a name are told apart by their numbers.
pub proof fn numbered_names_differ(i: nat, j: nat)
    requires
        i != j,
    ensures
        bone_name(None, i as int) != bone_name(None, j as int),
        animation_name(None, i as int) != animation_name(None, j as int),
{
    reading::decimal_reads_back(i);
    reading::decimal_reads_back(j);
    let (x, y) = (text::decimal(i), text::decimal(j));
    assert(bone_name(None, i as int).skip("bone"@.len() as int) =~= x);
    assert(bone_name(None, j as int).skip("bone"@.len() as int) =~= y);
    assert(animation_name(None, i as int).skip("animation"@.len() as int) =~= x);
    assert(animation_name(None, j as int).skip("animation"@.len() as int) =~= y);
}

/// A joint number that vertices use means the bone that the joint's node became.
pub proof fn joint_numbers_mean_their_nodes(
    joints: Seq<usize>,
    node_to_bone: Seq<Option<u16>>,
    j: int,
    n: nat,
)
    requires
        n <= joints.len() <= 0x1_0000,
        0 <= j < n,
    ensures
        joint_entry(joints, node_to_bone, j, n) == node_to_bone[joints[j] as int],
    decreases n,
{
    no_entry_below(joints, node_to_bone, j, j as nat);
    if j < n - 1 {
        joint_numbers_mean_their_nodes(joints, node_to_bone, j, (n - 1) as nat);
    }
}

proof fn no_entry_below(joints: Seq<usize>, node_to_bone: Seq<Option<u16>>, j: int, n: nat)
    requires
        n <= j < 0x1_0000,
    ensures
        joint_entry(joints, node_to_bone, j, n) is None,
    decreases n,
{
    if n > 0 {
        no_entry_below(joints, node_to_bone, j, (n - 1) as nat);
    }
}

/// A slot carries exactly the stored weight where that is above zero, for the
/// bone that the table gives the stored joint, or for the joint's own number
/// where the table gives none; otherwise it is unused.
pub proof fn slots_carry_stored_weights(
    joints: Seq<u16>,
    weights: Seq<Scalar>,
    table: Seq<Option<u16>>,
    k: int,
)
    requires
        0 <= k < 4,
    ensures
        ({
            let slot = stored_influences(joints, weights, table)[k];
            &&& slot.weighted() <==> Scalar::zero().spec_lt(weights[k])
            &&& slot.weighted() ==> slot.weight == weights[k] && (table[joints[k] as int] == Some(
                slot.bone,
            ) || table[joints[k] as int] is None && slot.bone == joints[k])
            &&& !slot.weighted() ==> slot.weight.bits == 0 && slot.bone == 0
        }),
{
}

/// A primitive without an index list draws its vertices in their order.
pub proof fn vertices_are_drawn_in_order(prim: Primitive, i: int)
    requires
        prim.indices is None,
        prim.positions is Some,
        prim.positions->0@.len() <= u32::MAX,
        0 <= i < prim.positions->0@.len(),
    ensures
        indices_of(prim).len() == prim.positions->0@.len(),
        indices_of(prim)[i] == i,
{
}

/// In a merged mesh every triangle corner of a primitive still names the vertex
/// of this primitive that it named in the file.
pub proof fn merged_corners_keep_their_vertices(
    mesh: SkinnedMesh,
    prims: Seq<Primitive>,
    table: Seq<Option<u16>>,
    n: nat,
    k: int,
    c: int,
)
    requires
        n <= prims.len(),
        merges(mesh, prims, table, n),
        indices_fit(prims),
        0 <= k < n,
        prims[k].positions is Some,
        0 <= c < indices_of(prims[k]).len(),
        indices_of(prims[k])[c] < prims[k].positions->0@.len(),
    ensures
        ({
            let at = corners_before(prims, k as nat) + c;
            &&& 0 <= at < mesh.indices@.len()
            &&& mesh.indices@[at] < mesh.vertices@.len()
            &&& is_vertex(
                mesh.vertices@[mesh.indices@[at] as int],
                prims[k],
                indices_of(prims[k])[c] as int,
            )
        }),
{
    let f = |k: int| super::offset(indices_of(prims[k]), vertices_before(prims, k as nat));
    crate::bytes::flat_holds_each_piece(n, f, k);
    corners_are_counted(prims, k as nat);
    let base = vertices_before(prims, k as nat);
    let list = indices_of(prims[k]);
    assert(super::fits_offset(list, base));
    assert(list[c] + base <= u32::MAX);
    assert(f(k)[c] == list[c] + base);
    assert(f(k)[c] == vertex_slot(prims, k, list[c] as int));
}

/// The triangle corners of the first `n` primitives.
pub open spec fn corners_before(prims: Seq<Primitive>, n: nat) -> nat
    decreases n,
{
    if n == 0 {
        0
    } else {
        corners_before(prims, (n - 1) as nat) + indices_of(prims[n - 1]).len()
    }
}

proof fn corners_are_counted(prims: Seq<Primitive>, n: nat)
    ensures
        crate::bytes::flat(
            n,
            |k: int| super::offset(indices_of(prims[k]), vertices_before(prims, k as nat)),
        ).len() == corners_before(prims, n),
    decreases n,
{
    if n > 0 {
        corners_are_counted(prims, (n - 1) as nat);
    }
}

/// Each key has the time and the value of the same number, and there are as many
/// keys as there are of both.
pub proof fn keys_pair_times_with_values<T>(times: Seq<Scalar>, values: Seq<T>)
    requires
        times.len() == values.len(),
    ensures
        paired(times, values).map_values(|k: (Scalar, T)| k.0) == times,
        paired(times, values).map_values(|k: (Scalar, T)| k.1) == values,
        forall|n: int|
            0 <= n <= times.len() ==> #[trigger] paired(times.take(n), values) == paired(
                times,
                values,
            ).take(n),
        forall|n: int|
            0 <= n <= times.len() ==> #[trigger] paired(times, values.take(n)) == paired(
                times,
                values,
            ).take(n),
{
    assert(paired(times, values).map_values(|k: (Scalar, T)| k.0) =~= times);
    assert(paired(times, values).map_values(|k: (Scalar, T)| k.1) =~= values);
    assert forall|n: int| 0 <= n <= times.len() implies #[trigger] paired(times.take(n), values)
        == paired(times, values).take(n) by {
        assert(paired(times.take(n), values) =~= paired(times, values).take(n));
    }
    assert forall|n: int| 0 <= n <= times.len() implies #[trigger] paired(times, values.take(n))
        == paired(times, values).take(n) by {
        assert(paired(times, values.take(n)) =~= paired(times, values).take(n));
    }
}

/// A channel keys the bone that its node became, unless it lacks times or
/// values.
pub proof fn channels_key_the_bones_of_their_nodes(
    channel: Channel,
    node_to_bone: Seq<Option<u16>>,
    bone: u16,
)
    ensures
        keyed_bone(channel, node_to_bone) == Some(bone) <==> channel.node < node_to_bone.len()
            && node_to_bone[channel.node as int] == Some(bone) && channel.times is Some
            && channel.outputs is Some,
{
}

/// A channel replaces the keys of its own kind and leaves the others.
pub proof fn channels_replace_their_own_kind(keys: Keys, channel: Channel)
    requires
        channel.times is Some,
        channel.outputs is Some,
    ensures
        match channel.outputs->0 {
            ChannelOutputs::Translations(v) => {
                &&& keys_with(keys, channel).translation == paired(channel.times->0@, v@)
                &&& keys_with(keys, channel).rotation == keys.rotation
                &&& keys_with(keys, channel).scale == keys.scale
            },
            ChannelOutputs::Rotations(v) => {
                &&& keys_with(keys, channel).rotation == paired(channel.times->0@, v@)
                &&& keys_with(keys, channel).translation == keys.translation
                &&& keys_with(keys, channel).scale == keys.scale
            },
            ChannelOutputs::Scales(v) => {
                &&& keys_with(keys, channel).scale == paired(channel.times->0@, v@)
                &&& keys_with(keys, channel).translation == keys.translation
                &&& keys_with(keys, channel).rotation == keys.rotation
            },
            ChannelOutputs::MorphWeights => keys_with(keys, channel) == keys,
        },
{
}

/// A bone is keyed exactly if some channel keys it, and its rotations are those
/// of the last channel that gives it any; so with the other kinds of keys.
pub proof fn last_channels_give_the_keys(
    channels: Seq<Channel>,
    node_to_bone: Seq<Option<u16>>,
    bone: u16,
    n: nat,
    k: int,
)
    requires
        n <= channels.len(),
        0 <= k < n,
        keyed_bone(channels[k], node_to_bone) == Some(bone),
    ensures
        bone_keys(channels, node_to_bone, bone, n) is Some,
        channels[k].outputs->0 is Rotations && (forall|j: int|
            k < j < n && keyed_bone(#[trigger] channels[j], node_to_bone) == Some(bone)
                ==> channels[j].outputs->0 !is Rotations) ==> bone_keys(
            channels,
            node_to_bone,
            bone,
            n,
        )->0.rotation == paired(channels[k].times->0@, channels[k].outputs->0->Rotations_0@),
        channels[k].outputs->0 is Translations && (forall|j: int|
            k < j < n && keyed_bone(#[trigger] channels[j], node_to_bone) == Some(bone)
                ==> channels[j].outputs->0 !is Translations) ==> bone_keys(
            channels,
            node_to_bone,
            bone,
            n,
        )->0.translation == paired(channels[k].times->0@, channels[k].outputs->0->Translations_0@),
        channels[k].outputs->0 is Scales && (forall|j: int|
            k < j < n && keyed_bone(#[trigger] channels[j], node_to_bone) == Some(bone)
                ==> channels[j].outputs->0 !is Scales) ==> bone_keys(
            channels,
            node_to_bone,
            bone,
            n,
        )->0.scale == paired(channels[k].times->0@, channels[k].outputs->0->Scales_0@),
    decreases n,
{
    if k < n - 1 {
        last_channels_give_the_keys(channels, node_to_bone, bone, (n - 1) as nat, k);
    }
}

} // verus!
