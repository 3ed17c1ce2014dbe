//! OBJ import: geometry from flat number arrays; the format has no skeleton.
use vstd::prelude::*;
use crate::bytes;
use crate::mesh::{RigVertex, SkinnedMesh};
use crate::scalar::Scalar;
use super::gltf;
use super::ImportError;

verus! {

/// One object of a file: flat arrays with three numbers per position and
/// normal and two per texture coordinate.
#[derive(Clone, Debug, PartialEq, Eq)]
pub struct ObjModel {
    pub positions: Vec<Scalar>,
    pub normals: Vec<Scalar>,
    pub texcoords: Vec<Scalar>,
    pub indices: Vec<u32>,
}

/// Three numbers of a flat array, or zeros where the array is too short.
pub open spec fn triple_at(list: Seq<Scalar>, i: int) -> Seq<Scalar> {
    if list.len() >= (i + 1) * 3 {
        seq![list[i * 3], list[i * 3 + 1], list[i * 3 + 2]]
    } else {
        gltf::zero3()
    }
}

/// Two numbers of a flat array, or zeros where the array is too short.
pub open spec fn pair_at(list: Seq<Scalar>, i: int) -> Seq<Scalar> {
    if list.len() >= (i + 1) * 2 {
        seq![list[i * 2], list[i * 2 + 1]]
    } else {
        gltf::zero2()
    }
}

/// Whether a vertex is vertex `i` of a model.
pub open spec fn is_vertex(v: RigVertex, model: ObjModel, i: int) -> bool {
    &&& v.position@ == triple_at(model.positions@, i)
    &&& v.normal@ == triple_at(model.normals@, i)
    &&& v.uv@ == pair_at(model.texcoords@, i)
}

/// Number of vertices of a model.
pub open spec fn vertex_count(model: ObjModel) -> nat {
    model.positions@.len() / 3
}

/// The vertices of the first `n` models.
pub open spec fn vertices_before(models: Seq<ObjModel>, n: nat) -> nat
    decreases n,
{
    if n == 0 {
        0
    } else {
        vertices_before(models, (n - 1) as nat) + vertex_count(models[n - 1])
    }
}

/// Where vertex `i` of model `k` goes.
pub open spec fn vertex_slot(models: Seq<ObjModel>, k: int, i: int) -> int {
    vertices_before(models, k as nat) + i
}

/// The indices that model `k` contributes; a model without positions
/// contributes none.
pub open spec fn model_indices(models: Seq<ObjModel>, k: int) -> Seq<u32> {
    if models[k].positions@.len() == 0 {
        Seq::empty()
    } else {
        super::offset(models[k].indices@, vertices_before(models, k as nat))
    }
}

/// Whether a mesh holds the first `n` models one after the other, without any
/// influence.
pub open spec fn merges(mesh: SkinnedMesh, models: Seq<ObjModel>, n: nat) -> bool {
    &&& mesh.vertices@.len() == vertices_before(models, n)
    &&& mesh.influences@.len() == vertices_before(models, n)
    &&& forall|k: int, i: int|
        0 <= k < n && 0 <= i < vertex_count(models[k]) ==> {
            let at = #[trigger] vertex_slot(models, k, i);
            0 <= at < mesh.vertices@.len() && is_vertex(mesh.vertices@[at], models[k], i)
        }
    &&& forall|v: int|
        0 <= v < mesh.influences@.len() ==> !crate::mesh::has_weight(
            (#[trigger] mesh.influences@[v])@,
        )
    &&& mesh.indices@ == bytes::flat(n, |k: int| model_indices(models, k))
    &&& mesh.cached() is None
}

/// Whether a number is zero, of either sign.
pub open spec fn is_zero(x: Scalar) -> bool {
    x.magnitude() == 0
}

/// Whether a normal is zero.
pub open spec fn zero_normal(v: RigVertex) -> bool {
    is_zero(v.normal@[0]) && is_zero(v.normal@[1]) && is_zero(v.normal@[2])
}

fn read_triple(list: &Vec<Scalar>, i: usize) -> (r: [Scalar; 3])
    requires
        3 * i + 3 <= usize::MAX,
    ensures
        r@ == triple_at(list@, i as int),
{
    let z = Scalar::zero();
    let r: [Scalar; 3] = if list.len() >= (i + 1) * 3 {
        [list[i * 3], list[i * 3 + 1], list[i * 3 + 2]]
    } else {
        [z, z, z]
    };
    assert(r@ =~= triple_at(list@, i as int));
    r
}

fn read_pair(list: &Vec<Scalar>, i: usize) -> (r: [Scalar; 2])
    requires
        3 * i + 3 <= usize::MAX,
    ensures
        r@ == pair_at(list@, i as int),
{
    let z = Scalar::zero();
    let r: [Scalar; 2] = if list.len() >= (i + 1) * 2 {
        [list[i * 2], list[i * 2 + 1]]
    } else {
        [z, z]
    };
    assert(r@ =~= pair_at(list@, i as int));
    r
}

fn read_model(model: &ObjModel) -> (mesh: SkinnedMesh)
    ensures
        mesh.vertices@.len() == vertex_count(*model),
        mesh.influences@.len() == vertex_count(*model),
        forall|i: int|
            0 <= i < mesh.vertices@.len() ==> is_vertex(#[trigger] mesh.vertices@[i], *model, i),
        forall|v: int|
            0 <= v < mesh.influences@.len() ==> !crate::mesh::has_weight(
                (#[trigger] mesh.influences@[v])@,
            ),
        mesh.indices@ == model.indices@,
        mesh.cached() is None,
{
    let count: usize = model.positions.len() / 3;
    let mut vertices: Vec<RigVertex> = Vec::new();
    let mut i: usize = 0;
    while i < count
        invariant
            i <= count,
            count == model.positions.len() / 3,
            vertices@.len() == i,
            forall|j: int| 0 <= j < i ==> is_vertex(#[trigger] vertices@[j], *model, j),
        decreases count - i,
    {
        vertices.push(
            RigVertex {
                position: read_triple(&model.positions, i),
                normal: read_triple(&model.normals, i),
                uv: read_pair(&model.texcoords, i),
            },
        );
        i += 1;
    }
    let mut indices: Vec<u32> = Vec::new();
    let mut k: usize = 0;
    while k < model.indices.len()
        invariant
            k <= model.indices@.len(),
            indices@ == model.indices@.take(k as int),
        decreases model.indices@.len() - k,
    {
        indices.push(model.indices[k]);
        assert(indices@ =~= model.indices@.take(k + 1));
        k += 1;
    }
    assert(model.indices@.take(k as int) =~= model.indices@);
    let mesh = SkinnedMesh::new(vertices, indices);
    mesh
}

proof fn merged_step(
    front: SkinnedMesh,
    added: SkinnedMesh,
    after: SkinnedMesh,
    models: Seq<ObjModel>,
    k: int,
)
    requires
        0 <= k < models.len(),
        merges(front, models, k as nat),
        models[k].positions@.len() > 0,
        added.vertices@.len() == vertex_count(models[k]),
        added.influences@.len() == vertex_count(models[k]),
        forall|i: int|
            0 <= i < added.vertices@.len() ==> is_vertex(
                #[trigger] added.vertices@[i],
                models[k],
                i,
            ),
        forall|v: int|
            0 <= v < added.influences@.len() ==> !crate::mesh::has_weight(
                (#[trigger] added.influences@[v])@,
            ),
        added.indices@ == models[k].indices@,
        after.vertices@ == front.vertices@ + added.vertices@,
        after.influences@ == front.influences@ + added.influences@,
        after.indices@ == front.indices@ + super::offset(added.indices@, front.vertices@.len()),
        after.cached() is None,
    ensures
        merges(after, models, (k + 1) as nat),
{
    let f = |k: int| model_indices(models, k);
    assert(f(k) == super::offset(models[k].indices@, front.vertices@.len()));
    assert(after.indices@ == bytes::flat((k + 1) as nat, f));
    assert forall|j: int, i: int| 0 <= j < k + 1 && 0 <= i < vertex_count(models[j]) implies {
        let at = #[trigger] vertex_slot(models, j, i);
        0 <= at < after.vertices@.len() && is_vertex(after.vertices@[at], models[j], i)
    } by {
        let at = vertex_slot(models, j, i);
        if j < k {
            assert(0 <= at < front.vertices@.len());
            assert(after.vertices@[at] == front.vertices@[at]);
        } else {
            assert(after.vertices@[at] == added.vertices@[i]);
        }
    }
    assert forall|v: int| 0 <= v < after.influences@.len() implies !crate::mesh::has_weight(
        (#[trigger] after.influences@[v])@,
    ) by {
        if v < front.influences@.len() {
            assert(after.influences@[v] == front.influences@[v]);
        } else {
            assert(after.influences@[v] == added.influences@[v - front.influences@.len()]);
        }
    }
}

/// Whether the indices of every model fit behind the vertices before it.
pub open spec fn indices_fit(models: Seq<ObjModel>) -> bool {
    forall|k: int|
        0 <= k < models.len() && (#[trigger] models[k]).positions@.len() > 0 ==> super::fits_offset(
            models[k].indices@,
            vertices_before(models, k as nat),
        )
}

/// Merge all objects of a file into one mesh and tell whether it lacks normals,
/// because all of them are zero. A file without vertices is refused.
pub fn merge_models(models: &Vec<ObjModel>) -> (r: Result<(SkinnedMesh, bool), ImportError>)
    requires
        indices_fit(models@),
    ensures
        match r {
            Ok((mesh, lacks_normals)) => {
                &&& vertices_before(models@, models@.len()) > 0
                &&& merges(mesh, models@, models@.len())
                &&& lacks_normals == (forall|v: int|
                    0 <= v < mesh.vertices@.len() ==> zero_normal(#[trigger] mesh.vertices@[v]))
            },
            Err(e) => vertices_before(models@, models@.len()) == 0 && e == ImportError::NoGeometry,
        },
{
    let mut mesh = SkinnedMesh::default();
    let mut k: usize = 0;
    assert(mesh.indices@ =~= Seq::empty());
    while k < models.len()
        invariant
            k <= models@.len(),
            indices_fit(models@),
            merges(mesh, models@, k as nat),
        decreases models@.len() - k,
    {
        let ghost front = mesh;
        if models[k].positions.len() > 0 {
            let part = read_model(&models[k]);
            let ghost added = part;
            assert(super::fits_offset(
                models@[k as int].indices@,
                vertices_before(models@, k as nat),
            ));
            super::append_mesh(&mut mesh, part);
            proof {
                merged_step(front, added, mesh, models@, k as int);
            }
        } else {
            proof {
                let f = |k: int| model_indices(models@, k);
                assert(f(k as int) =~= Seq::empty());
                assert(bytes::flat((k + 1) as nat, f) =~= bytes::flat(k as nat, f));
            }
        }
        k += 1;
    }
    if mesh.vertices.len() == 0 {
        return Err(ImportError::NoGeometry);
    }
    let mut lacks = true;
    let mut v: usize = 0;
    while v < mesh.vertices.len()
        invariant
            v <= mesh.vertices@.len(),
            lacks == (forall|u: int|
                0 <= u < v ==> zero_normal(#[trigger] mesh.vertices@[u])),
        decreases mesh.vertices@.len() - v,
    {
        let n = mesh.vertices[v].normal;
        if !(n[0].abs().bits == 0 && n[1].abs().bits == 0 && n[2].abs().bits == 0) {
            lacks = false;
            assert(!zero_normal(mesh.vertices@[v as int]));
        }
        v += 1;
    }
    Ok((mesh, lacks))
}

/// Number `c` of vertex `i` is number `3 * i + c` of the flat position and
/// normal arrays and number `2 * i + c` of the texture coordinates; a vertex
/// for which an array holds too little has zeros.
pub proof fn vertices_hold_the_flat_arrays(v: RigVertex, model: ObjModel, i: int, c: int)
    requires
        is_vertex(v, model, i),
        0 <= i < vertex_count(model),
        0 <= c < 3,
    ensures
        v.position@[c] == model.positions@[3 * i + c],
        3 * i + 3 <= model.normals@.len() ==> v.normal@[c] == model.normals@[3 * i + c],
        3 * i + 3 > model.normals@.len() ==> v.normal@[c].bits == 0,
        c < 2 && 2 * i + 2 <= model.texcoords@.len() ==> v.uv@[c] == model.texcoords@[2 * i + c],
        c < 2 && 2 * i + 2 > model.texcoords@.len() ==> v.uv@[c].bits == 0,
{
    let positions = triple_at(model.positions@, i);
    let normals = triple_at(model.normals@, i);
    let uvs = pair_at(model.texcoords@, i);
    assert(c == 0 || c == 1 || c == 2);
    assert(v.position@[c] == positions[c] && v.normal@[c] == normals[c]);
    assert(c < 2 ==> v.uv@[c] == uvs[c]);
}

/// In a merged mesh every triangle corner of a model still names the vertex of
/// this model that it named in the file, and the corners of the models follow
/// each other.
pub proof fn merged_corners_keep_their_vertices(
    mesh: SkinnedMesh,
    models: Seq<ObjModel>,
    n: nat,
    k: int,
    c: int,
)
    requires
        n <= models.len(),
        merges(mesh, models, n),
        indices_fit(models),
        0 <= k < n,
        models[k].positions@.len() > 0,
        0 <= c < models[k].indices@.len(),
        models[k].indices@[c] < models[k].positions@.len() / 3,
    ensures
        ({
            let at = corners_before(models, k as nat) + c;
            &&& 0 <= at < mesh.indices@.len()
            &&& mesh.indices@[at] < mesh.vertices@.len()
            &&& is_vertex(
                mesh.vertices@[mesh.indices@[at] as int],
                models[k],
                models[k].indices@[c] as int,
            )
        }),
{
    let f = |k: int| model_indices(models, k);
    bytes::flat_holds_each_piece(n, f, k);
    corners_are_counted(models, k as nat);
    let base = vertices_before(models, k as nat);
    assert(super::fits_offset(models[k].indices@, base));
    assert(models[k].indices@[c] + base <= u32::MAX);
    assert(f(k)[c] == models[k].indices@[c] + base);
    assert(f(k)[c] == vertex_slot(models, k, models[k].indices@[c] as int));
}

/// The triangle corners of the first `n` models that have positions.
pub open spec fn corners_before(models: Seq<ObjModel>, n: nat) -> nat
    decreases n,
{
    if n == 0 {
        0
    } else if models[n - 1].positions@.len() == 0 {
        corners_before(models, (n - 1) as nat)
    } else {
        corners_before(models, (n - 1) as nat) + models[n - 1].indices@.len()
    }
}

proof fn corners_are_counted(models: Seq<ObjModel>, n: nat)
    ensures
        bytes::flat(n, |k: int| model_indices(models, k)).len() == corners_before(models, n),
    decreases n,
{
    if n > 0 {
        corners_are_counted(models, (n - 1) as nat);
    }
}

/// A normal counts as missing exactly if no coordinate differs from zero, of
/// either sign.
pub proof fn zero_normals_have_no_direction(v: RigVertex)
    ensures
        zero_normal(v) <==> forall|c: int|
            0 <= c < 3 ==> (#[trigger] v.normal@[c]).spec_le(Scalar::zero())
                && Scalar::zero().spec_le(v.normal@[c]),
{
    if forall|c: int|
        0 <= c < 3 ==> (#[trigger] v.normal@[c]).spec_le(Scalar::zero()) && Scalar::zero().spec_le(
            v.normal@[c],
        ) {
        assert(v.normal@[0].spec_le(Scalar::zero()));
        assert(v.normal@[1].spec_le(Scalar::zero()));
        assert(v.normal@[2].spec_le(Scalar::zero()));
    }
}

} // verus!
