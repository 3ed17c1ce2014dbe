//! ASCII FBX exporter with skinning.
//!
//! Emits the object graph of a skinned mesh: geometry, mesh model, one limb
//! model and one skin cluster per bone, the skin deformer, a bind pose, and the
//! connections between them. Object numbers are fixed per object, so the
//! connections resolve.
use vstd::prelude::*;
use vstd::string::StringExecFns;
use crate::bytes;
use crate::mesh::{Influence, SkinnedMesh, VertexInfluences};
use crate::mesh;
use crate::skeleton::{Bone, Skeleton};
use crate::text;
use super::ExportError;

verus! {

/// Object number of the geometry.
pub const GEOM_ID: i64 = 1_000_000;

/// Object number of the mesh model.
pub const MODEL_ID: i64 = 1_000_001;

/// Object number of the skin deformer.
pub const SKIN_ID: i64 = 1_000_002;

/// Object number of the first limb.
pub const LIMB_BASE: i64 = 2_000_000;

/// Object number of the first cluster.
pub const CLUSTER_BASE: i64 = 3_000_000;

/// Object number of the bind pose.
pub const POSE_ID: i64 = 4_000_000;

// ── numbers ───────────────────────────────────────────────────────────────────

/// A number printed with six digits behind the point.
#[derive(Clone, Debug, PartialEq, Eq)]
pub struct Decimal {
    /// Whether the number is zero.
    pub is_zero: bool,
    /// The number with six digits behind the point.
    pub fixed: String,
}

/// A text without the zeros it ends in.
pub open spec fn without_zeros(s: Seq<char>) -> Seq<char>
    decreases s.len(),
{
    if s.len() > 0 && s.last() == '0' {
        without_zeros(s.drop_last())
    } else {
        s
    }
}

/// A plain decimal: zeros at the end are dropped, but one digit stays behind
/// the point.
pub open spec fn plain_decimal(is_zero: bool, fixed: Seq<char>) -> Seq<char> {
    if is_zero {
        "0"@
    } else if fixed.contains('.') {
        let short = without_zeros(fixed);
        if short.len() > 0 && short.last() == '.' {
            short.push('0')
        } else {
            short
        }
    } else {
        fixed
    }
}

/// Format a number without scientific notation, trimmed to a plain decimal.
pub fn format_f(number: &Decimal) -> (r: String)
    ensures
        r@ == plain_decimal(number.is_zero, number.fixed@),
{
    if number.is_zero {
        return "0".to_owned();
    }
    let chars = text::chars_of(number.fixed.as_str());
    let mut pointed = false;
    let mut i: usize = 0;
    while i < chars.len()
        invariant
            i <= chars.len(),
            pointed == (exists|j: int| 0 <= j < i && chars@[j] == '.'),
        decreases chars.len() - i,
    {
        if chars[i] == '.' {
            pointed = true;
        }
        i += 1;
    }
    assert(pointed == chars@.contains('.'));
    if !pointed {
        let r = text::text_of(&chars, 0, chars.len());
        assert(r@ =~= chars@);
        return r;
    }
    let mut end: usize = chars.len();
    assert(chars@.take(end as int) =~= chars@);
    while end > 0 && chars[end - 1] == '0'
        invariant
            end <= chars.len(),
            without_zeros(chars@.take(end as int)) == without_zeros(chars@),
        decreases end,
    {
        assert(chars@.take(end as int).drop_last() =~= chars@.take(end - 1));
        end -= 1;
    }
    let mut r = text::text_of(&chars, 0, end);
    assert(r@ =~= chars@.take(end as int));
    if end > 0 && chars[end - 1] == '.' {
        r.push('0');
    }
    r
}

/// The plain decimals of some numbers, separated by commas.
pub open spec fn decimals_text(numbers: Seq<Decimal>) -> Seq<char> {
    bytes::joined(
        numbers.len(),
        ","@,
        |i: int| plain_decimal(numbers[i].is_zero, numbers[i].fixed@),
    )
}

fn join_decimals(numbers: &Vec<Decimal>) -> (r: String)
    ensures
        r@ == decimals_text(numbers@),
{
    let ghost f = |i: int| plain_decimal(numbers@[i].is_zero, numbers@[i].fixed@);
    let mut r = String::new();
    let mut i: usize = 0;
    while i < numbers.len()
        invariant
            i <= numbers.len(),
            f == (|i: int| plain_decimal(numbers@[i].is_zero, numbers@[i].fixed@)),
            r@ == bytes::joined(i as nat, ","@, f),
        decreases numbers.len() - i,
    {
        let ghost piece = f(i as int);
        if i > 0 {
            r.append(",");
        }
        r.append(format_f(&numbers[i]).as_str());
        if i == 0 {
            assert(r@ =~= bytes::joined(1, ","@, f));
        }
        i += 1;
    }
    r
}

/// A number reduced to a signed 32-bit number.
pub open spec fn wrap_i32(n: int) -> int {
    let m = n % 0x1_0000_0000;
    if m < 0x8000_0000 {
        m
    } else {
        m - 0x1_0000_0000
    }
}

fn wrapped(n: u64) -> (r: i64)
    ensures
        r == wrap_i32(n as int),
{
    let m: u64 = n % 0x1_0000_0000;
    if m < 0x8000_0000 {
        m as i64
    } else {
        m as i64 - 0x1_0000_0000
    }
}

/// Entry `j` of the polygon list: the last corner of each triangle is stored as
/// its complement.
pub open spec fn polygon_entry(indices: Seq<u32>, j: int) -> int {
    if j % 3 == 2 {
        -wrap_i32(indices[j] as int) - 1
    } else {
        wrap_i32(indices[j] as int)
    }
}

/// The polygon list of the whole triangles.
pub open spec fn polygon_text(indices: Seq<u32>) -> Seq<char> {
    bytes::joined(
        (3 * (indices.len() / 3)) as nat,
        ","@,
        |j: int| text::signed_decimal(polygon_entry(indices, j)),
    )
}

fn join_polygons(indices: &Vec<u32>) -> (r: String)
    ensures
        r@ == polygon_text(indices@),
{
    let ghost f = |j: int| text::signed_decimal(polygon_entry(indices@, j));
    let count: usize = 3 * (indices.len() / 3);
    let mut r = String::new();
    let mut j: usize = 0;
    while j < count
        invariant
            j <= count <= indices.len(),
            f == (|j: int| text::signed_decimal(polygon_entry(indices@, j))),
            r@ == bytes::joined(j as nat, ","@, f),
        decreases count - j,
    {
        let ghost piece = f(j as int);
        if j > 0 {
            r.append(",");
        }
        let value = wrapped(indices[j] as u64);
        if j % 3 == 2 {
            text::push_signed_decimal(&mut r, -value - 1);
        } else {
            text::push_signed_decimal(&mut r, value);
        }
        if j == 0 {
            assert(r@ =~= bytes::joined(1, ","@, f));
        }
        j += 1;
    }
    r
}

// ── clusters ──────────────────────────────────────────────────────────────────

/// The slots of vertex `v` that feed `bone`, as pairs of vertex and slot.
pub open spec fn slots_feeding(set: Seq<Influence>, v: int, bone: u16, n: nat) -> Seq<(int, int)>
    decreases n,
{
    if n == 0 {
        Seq::empty()
    } else {
        let before = slots_feeding(set, v, bone, (n - 1) as nat);
        if mesh::feeds(set[n - 1], bone) {
            before.push((v, n - 1))
        } else {
            before
        }
    }
}

/// The slots that feed `bone`, vertex by vertex.
pub open spec fn cluster_of(sets: Seq<VertexInfluences>, bone: int) -> Seq<(int, int)> {
    bytes::flat(sets.len(), |v: int| slots_feeding(sets[v]@, v, bone as u16, 4))
}

/// Pairs as plain numbers.
pub open spec fn pairs_of(list: Seq<(usize, usize)>) -> Seq<(int, int)> {
    list.map_values(|e: (usize, usize)| (e.0 as int, e.1 as int))
}

/// Collect, for each of `bones` bones, the slots that feed it.
pub fn clusters(sets: &Vec<VertexInfluences>, bones: usize) -> (r: Vec<Vec<(usize, usize)>>)
    ensures
        r@.len() == bones,
        forall|b: int|
            0 <= b < bones && b <= u16::MAX ==> pairs_of((#[trigger] r@[b])@) == cluster_of(sets@, b),
        forall|b: int| u16::MAX < b < bones ==> (#[trigger] r@[b])@.len() == 0,
{
    let mut r: Vec<Vec<(usize, usize)>> = Vec::new();
    let mut i: usize = 0;
    while i < bones
        invariant
            i <= bones,
            r@.len() == i,
            forall|b: int| 0 <= b < i ==> (#[trigger] r@[b])@.len() == 0,
        decreases bones - i,
    {
        r.push(Vec::new());
        i += 1;
    }
    proof {
        assert forall|b: int| 0 <= b < bones && b <= u16::MAX implies pairs_of((#[trigger] r@[b])@)
            == bytes::flat(0, |v: int| slots_feeding(sets@[v]@, v, b as u16, 4)) by {
            assert(pairs_of(r@[b]@) =~= Seq::empty());
        }
    }
    let mut v: usize = 0;
    while v < sets.len()
        invariant
            v <= sets.len(),
            r@.len() == bones,
            forall|b: int|
                0 <= b < bones && b <= u16::MAX ==> pairs_of((#[trigger] r@[b])@) == bytes::flat(
                    v as nat,
                    |v: int| slots_feeding(sets@[v]@, v, b as u16, 4),
                ),
            forall|b: int| u16::MAX < b < bones ==> (#[trigger] r@[b])@.len() == 0,
        decreases sets.len() - v,
    {
        let ghost start = r@;
        let ghost set = sets@[v as int]@;
        let mut k: usize = 0;
        proof {
            assert forall|b: int| 0 <= b < bones && b <= u16::MAX implies pairs_of(
                (#[trigger] r@[b])@,
            ) == pairs_of(start[b]@) + slots_feeding(set, v as int, b as u16, 0) by {
                assert(pairs_of(start[b]@) + Seq::<(int, int)>::empty() =~= pairs_of(start[b]@));
            }
        }
        while k < 4
            invariant
                k <= 4,
                v < sets.len(),
                set == sets@[v as int]@,
                set.len() == 4,
                r@.len() == bones,
                start.len() == bones,
                forall|b: int|
                    0 <= b < bones && b <= u16::MAX ==> pairs_of((#[trigger] r@[b])@) == pairs_of(
                        start[b]@,
                    ) + slots_feeding(set, v as int, b as u16, k as nat),
                forall|b: int| u16::MAX < b < bones ==> (#[trigger] r@[b])@.len() == 0,
            decreases 4 - k,
        {
            let slot = sets[v][k];
            let at: usize = slot.bone as usize;
            let ghost prior = r@;
            if slot.weight.is_positive() && at < bones {
                r[at].push((v, k));
                proof {
                    assert(mesh::feeds(set[k as int], at as u16));
                    assert(pairs_of(r@[at as int]@) =~= pairs_of(prior[at as int]@).push(
                        (v as int, k as int),
                    ));
                }
            }
            proof {
                assert forall|b: int| 0 <= b < bones && b <= u16::MAX implies pairs_of(
                    (#[trigger] r@[b])@,
                ) == pairs_of(start[b]@) + slots_feeding(set, v as int, b as u16, (k + 1) as nat) by {
                    let before = slots_feeding(set, v as int, b as u16, k as nat);
                    assert(pairs_of(prior[b]@) == pairs_of(start[b]@) + before);
                    if mesh::feeds(set[k as int], b as u16) {
                        assert(at == b);
                        assert(pairs_of(start[b]@) + before.push((v as int, k as int)) =~= (
                        pairs_of(start[b]@) + before).push((v as int, k as int)));
                    } else {
                        assert(r@[b] == prior[b]);
                    }
                }
            }
            k += 1;
        }
        proof {
            assert forall|b: int| 0 <= b < bones && b <= u16::MAX implies pairs_of(
                (#[trigger] r@[b])@,
            ) == bytes::flat(
                (v + 1) as nat,
                |v: int| slots_feeding(sets@[v]@, v, b as u16, 4),
            ) by {
                let f = |v: int| slots_feeding(sets@[v]@, v, b as u16, 4);
                assert(f(v as int) == slots_feeding(set, v as int, b as u16, 4));
                assert(pairs_of(start[b]@) == bytes::flat(v as nat, f));
            }
        }
        v += 1;
    }
    r
}

// ── objects and connections ───────────────────────────────────────────────────

/// The numbers that go with a mesh and its skeleton into the file.
pub struct FbxNumbers {
    /// Positions, three numbers per vertex.
    pub positions: Vec<Decimal>,
    /// Normals, three numbers per vertex.
    pub normals: Vec<Decimal>,
    /// Texture coordinates, two numbers per vertex.
    pub uvs: Vec<Decimal>,
    /// Weights, one per influence slot.
    pub weights: Vec<[Decimal; 4]>,
    /// Translation of each bone against its parent.
    pub translations: Vec<Vec<Decimal>>,
    /// Rotation of each bone against its parent, in degrees about the axes.
    pub rotations: Vec<Vec<Decimal>>,
    /// Scale of each bone against its parent.
    pub scales: Vec<Vec<Decimal>>,
    /// Global bind matrix of each bone, column by column.
    pub global_binds: Vec<Vec<Decimal>>,
}

impl FbxNumbers {
    /// Whether every one of `bones` bones has its numbers.
    pub open spec fn complete(self, bones: nat) -> bool {
        &&& self.translations@.len() == bones
        &&& self.rotations@.len() == bones
        &&& self.scales@.len() == bones
        &&& self.global_binds@.len() == bones
    }
}

/// Every parent is one of the bones.
pub open spec fn parents_in_range(bones: Seq<Bone>) -> bool {
    forall|i: int|
        0 <= i < bones.len() ==> ((#[trigger] bones[i]).parent matches Some(p) ==> p < bones.len())
}

/// Object number of the parent limb, or zero for the scene.
pub open spec fn parent_id(bones: Seq<Bone>, bone: int) -> nat {
    match bones[bone].parent {
        Some(p) => (LIMB_BASE + p) as nat,
        None => 0,
    }
}

/// The file header and the global settings.
pub open spec fn header_text(out: Seq<char>) -> Seq<char> {
    out + "; FBX 7.4.0 project file\n; Exported by Cube Bauhaus rig bay\n; -------------------------------------------\n\nFBXHeaderExtension:  {\n\tFBXHeaderVersion: 1003\n\tFBXVersion: 7400\n\tCreator: \"Cube Bauhaus rig bay\"\n}\n\nGlobalSettings:  {\n\tVersion: 1000\n\tProperties70:  {\n\t\tP: \"UpAxis\", \"int\", \"Integer\", \"\",1\n\t\tP: \"UpAxisSign\", \"int\", \"Integer\", \"\",1\n\t\tP: \"FrontAxis\", \"int\", \"Integer\", \"\",2\n\t\tP: \"FrontAxisSign\", \"int\", \"Integer\", \"\",1\n\t\tP: \"CoordAxis\", \"int\", \"Integer\", \"\",0\n\t\tP: \"CoordAxisSign\", \"int\", \"Integer\", \"\",1\n\t\tP: \"UnitScaleFactor\", \"double\", \"Number\", \"\",1.0\n\t}\n}\n\n"@
}

fn write_header(s: &mut String)
    ensures
        final(s)@ == header_text(old(s)@),
{
    s.append("; FBX 7.4.0 project file\n; Exported by Cube Bauhaus rig bay\n; -------------------------------------------\n\nFBXHeaderExtension:  {\n\tFBXHeaderVersion: 1003\n\tFBXVersion: 7400\n\tCreator: \"Cube Bauhaus rig bay\"\n}\n\nGlobalSettings:  {\n\tVersion: 1000\n\tProperties70:  {\n\t\tP: \"UpAxis\", \"int\", \"Integer\", \"\",1\n\t\tP: \"UpAxisSign\", \"int\", \"Integer\", \"\",1\n\t\tP: \"FrontAxis\", \"int\", \"Integer\", \"\",2\n\t\tP: \"FrontAxisSign\", \"int\", \"Integer\", \"\",1\n\t\tP: \"CoordAxis\", \"int\", \"Integer\", \"\",0\n\t\tP: \"CoordAxisSign\", \"int\", \"Integer\", \"\",1\n\t\tP: \"UnitScaleFactor\", \"double\", \"Number\", \"\",1.0\n\t}\n}\n\n");
}

/// The object counts.
pub open spec fn definitions_text(out: Seq<char>, bones: nat) -> Seq<char> {
    out + "Definitions:  {\n\tVersion: 100\n\tCount: "@ + text::decimal(2 * bones + 5) + "\n\tObjectType: \"Geometry\" { Count: 1 }\n\tObjectType: \"Model\" { Count: "@ + text::decimal(bones + 1) + " }\n\tObjectType: \"Deformer\" { Count: "@ + text::decimal(bones + 1) + " }\n\tObjectType: \"Pose\" { Count: 1 }\n}\n\n"@
}

fn write_definitions(s: &mut String, bones: usize)
    requires
        2 * bones + 5 <= usize::MAX,
    ensures
        final(s)@ == definitions_text(old(s)@, bones as nat),
{
    s.append("Definitions:  {\n\tVersion: 100\n\tCount: ");
    text::push_decimal(s, (2 * bones + 5) as u64);
    s.append("\n\tObjectType: \"Geometry\" { Count: 1 }\n\tObjectType: \"Model\" { Count: ");
    text::push_decimal(s, (bones + 1) as u64);
    s.append(" }\n\tObjectType: \"Deformer\" { Count: ");
    text::push_decimal(s, (bones + 1) as u64);
    s.append(" }\n\tObjectType: \"Pose\" { Count: 1 }\n}\n\n");
}

/// The geometry: positions, polygons, normals and texture coordinates.
pub open spec fn geometry_text(out: Seq<char>, mesh: SkinnedMesh, numbers: FbxNumbers) -> Seq<char> {
    out + "\tGeometry: 1000000, \"Geometry::mesh\", \"Mesh\" {\n\t\tVertices: *"@ + text::decimal(mesh.vertices@.len() * 3) + " {\n\t\t\ta: "@ + decimals_text(numbers.positions@) + "\n\t\t}\n\t\tPolygonVertexIndex: *"@ + text::decimal(mesh.indices@.len()) + " {\n\t\t\ta: "@ + polygon_text(mesh.indices@) + "\n\t\t}\n\t\tLayerElementNormal: 0 {\n\t\t\tVersion: 101\n\t\t\tName: \"\"\n\t\t\tMappingInformationType: \"ByVertice\"\n\t\t\tReferenceInformationType: \"Direct\"\n\t\t\tNormals: *"@ + text::decimal(mesh.vertices@.len() * 3) + " {\n\t\t\t\ta: "@ + decimals_text(numbers.normals@) + "\n\t\t\t}\n\t\t}\n\t\tLayerElementUV: 0 {\n\t\t\tVersion: 101\n\t\t\tName: \"map1\"\n\t\t\tMappingInformationType: \"ByVertice\"\n\t\t\tReferenceInformationType: \"Direct\"\n\t\t\tUV: *"@ + text::decimal(mesh.vertices@.len() * 2) + " {\n\t\t\t\ta: "@ + decimals_text(numbers.uvs@) + "\n\t\t\t}\n\t\t}\n\t\tLayer: 0 {\n\t\t\tVersion: 100\n\t\t\tLayerElement:  { Type: \"LayerElementNormal\" TypedIndex: 0 }\n\t\t\tLayerElement:  { Type: \"LayerElementUV\" TypedIndex: 0 }\n\t\t}\n\t}\n"@
}

fn write_geometry(s: &mut String, mesh: &SkinnedMesh, numbers: &FbxNumbers)
    requires
        3 * mesh.vertices@.len() <= usize::MAX,
    ensures
        final(s)@ == geometry_text(old(s)@, *mesh, *numbers),
{
    s.append("\tGeometry: 1000000, \"Geometry::mesh\", \"Mesh\" {\n\t\tVertices: *");
    text::push_decimal(s, (mesh.vertices.len() * 3) as u64);
    s.append(" {\n\t\t\ta: ");
    s.append(join_decimals(&numbers.positions).as_str());
    s.append("\n\t\t}\n\t\tPolygonVertexIndex: *");
    text::push_decimal(s, mesh.indices.len() as u64);
    s.append(" {\n\t\t\ta: ");
    s.append(join_polygons(&mesh.indices).as_str());
    s.append("\n\t\t}\n\t\tLayerElementNormal: 0 {\n\t\t\tVersion: 101\n\t\t\tName: \"\"\n\t\t\tMappingInformationType: \"ByVertice\"\n\t\t\tReferenceInformationType: \"Direct\"\n\t\t\tNormals: *");
    text::push_decimal(s, (mesh.vertices.len() * 3) as u64);
    s.append(" {\n\t\t\t\ta: ");
    s.append(join_decimals(&numbers.normals).as_str());
    s.append("\n\t\t\t}\n\t\t}\n\t\tLayerElementUV: 0 {\n\t\t\tVersion: 101\n\t\t\tName: \"map1\"\n\t\t\tMappingInformationType: \"ByVertice\"\n\t\t\tReferenceInformationType: \"Direct\"\n\t\t\tUV: *");
    text::push_decimal(s, (mesh.vertices.len() * 2) as u64);
    s.append(" {\n\t\t\t\ta: ");
    s.append(join_decimals(&numbers.uvs).as_str());
    s.append("\n\t\t\t}\n\t\t}\n\t\tLayer: 0 {\n\t\t\tVersion: 100\n\t\t\tLayerElement:  { Type: \"LayerElementNormal\" TypedIndex: 0 }\n\t\t\tLayerElement:  { Type: \"LayerElementUV\" TypedIndex: 0 }\n\t\t}\n\t}\n");
}

/// The mesh model.
pub open spec fn mesh_model_text(out: Seq<char>) -> Seq<char> {
    out + "\tModel: 1000001, \"Model::mesh\", \"Mesh\" {\n\t\tVersion: 232\n\t\tProperties70:  {\n\t\t\tP: \"DefaultAttributeIndex\", \"int\", \"Integer\", \"\",0\n\t\t}\n\t\tShading: T\n\t\tCulling: \"CullingOff\"\n\t}\n"@
}

fn write_mesh_model(s: &mut String)
    ensures
        final(s)@ == mesh_model_text(old(s)@),
{
    s.append("\tModel: 1000001, \"Model::mesh\", \"Mesh\" {\n\t\tVersion: 232\n\t\tProperties70:  {\n\t\t\tP: \"DefaultAttributeIndex\", \"int\", \"Integer\", \"\",0\n\t\t}\n\t\tShading: T\n\t\tCulling: \"CullingOff\"\n\t}\n");
}

/// The limb of a bone: its name and its rest pose.
pub open spec fn limb_text(out: Seq<char>, bones: Seq<Bone>, numbers: FbxNumbers, bone: int) -> Seq<char> {
    out + "\tModel: "@ + text::decimal((LIMB_BASE + bone) as nat) + ", \"Model::"@ + bones[bone].name@ + "\", \"LimbNode\" {\n\t\tVersion: 232\n\t\tProperties70:  {\n\t\t\tP: \"Lcl Translation\", \"Lcl Translation\", \"\", \"A\","@ + decimals_text(numbers.translations@[bone]@) + "\n\t\t\tP: \"Lcl Rotation\", \"Lcl Rotation\", \"\", \"A\","@ + decimals_text(numbers.rotations@[bone]@) + "\n\t\t\tP: \"Lcl Scaling\", \"Lcl Scaling\", \"\", \"A\","@ + decimals_text(numbers.scales@[bone]@) + "\n\t\t}\n\t}\n"@
}

fn write_limb_model(s: &mut String, skeleton: &Skeleton, numbers: &FbxNumbers, bone: usize)
    requires
        bone < skeleton.bones@.len(),
        numbers.complete(skeleton.bones@.len()),
        2 * skeleton.bones@.len() + 5 <= usize::MAX,
    ensures
        final(s)@ == limb_text(old(s)@, skeleton.bones@, *numbers, bone as int),
{
    s.append("\tModel: ");
    text::push_decimal(s, LIMB_BASE as u64 + bone as u64);
    s.append(", \"Model::");
    s.append(skeleton.bones[bone].name.as_str());
    s.append("\", \"LimbNode\" {\n\t\tVersion: 232\n\t\tProperties70:  {\n\t\t\tP: \"Lcl Translation\", \"Lcl Translation\", \"\", \"A\",");
    s.append(join_decimals(&numbers.translations[bone]).as_str());
    s.append("\n\t\t\tP: \"Lcl Rotation\", \"Lcl Rotation\", \"\", \"A\",");
    s.append(join_decimals(&numbers.rotations[bone]).as_str());
    s.append("\n\t\t\tP: \"Lcl Scaling\", \"Lcl Scaling\", \"\", \"A\",");
    s.append(join_decimals(&numbers.scales[bone]).as_str());
    s.append("\n\t\t}\n\t}\n");
}

/// The skin deformer.
pub open spec fn skin_deformer_text(out: Seq<char>) -> Seq<char> {
    out + "\tDeformer: 1000002, \"Deformer::skin\", \"Skin\" {\n\t\tVersion: 101\n\t\tLink_DeformAcuracy: 50\n\t}\n"@
}

fn write_skin_deformer(s: &mut String)
    ensures
        final(s)@ == skin_deformer_text(old(s)@),
{
    s.append("\tDeformer: 1000002, \"Deformer::skin\", \"Skin\" {\n\t\tVersion: 101\n\t\tLink_DeformAcuracy: 50\n\t}\n");
}

/// The vertex list of a cluster.
pub open spec fn cluster_indices_text(entries: Seq<(int, int)>) -> Seq<char> {
    bytes::joined(entries.len(), ","@, |i: int| text::signed_decimal(wrap_i32(entries[i].0)))
}

/// The weight list of a cluster.
pub open spec fn cluster_weights_text(entries: Seq<(int, int)>, weights: Seq<[Decimal; 4]>) -> Seq<
    char,
> {
    bytes::joined(
        entries.len(),
        ","@,
        |i: int|
            plain_decimal(
                weights[entries[i].0]@[entries[i].1].is_zero,
                weights[entries[i].0]@[entries[i].1].fixed@,
            ),
    )
}

fn join_cluster_indices(entries: &Vec<(usize, usize)>) -> (r: String)
    ensures
        r@ == cluster_indices_text(pairs_of(entries@)),
{
    let ghost list = pairs_of(entries@);
    let ghost f = |i: int| text::signed_decimal(wrap_i32(list[i].0));
    let mut r = String::new();
    let mut i: usize = 0;
    while i < entries.len()
        invariant
            i <= entries.len(),
            list == pairs_of(entries@),
            f == (|i: int| text::signed_decimal(wrap_i32(list[i].0))),
            r@ == bytes::joined(i as nat, ","@, f),
        decreases entries.len() - i,
    {
        let ghost piece = f(i as int);
        if i > 0 {
            r.append(",");
        }
        text::push_signed_decimal(&mut r, wrapped(entries[i].0 as u64));
        if i == 0 {
            assert(r@ =~= bytes::joined(1, ","@, f));
        }
        i += 1;
    }
    r
}

fn join_cluster_weights(entries: &Vec<(usize, usize)>, weights: &Vec<[Decimal; 4]>) -> (r: String)
    requires
        forall|i: int|
            0 <= i < entries@.len() ==> (#[trigger] entries@[i]).0 < weights@.len() && entries@[i].1
                < 4,
    ensures
        r@ == cluster_weights_text(pairs_of(entries@), weights@),
{
    let ghost list = pairs_of(entries@);
    let ghost f = |i: int|
        plain_decimal(
            weights@[list[i].0]@[list[i].1].is_zero,
            weights@[list[i].0]@[list[i].1].fixed@,
        );
    let mut r = String::new();
    let mut i: usize = 0;
    while i < entries.len()
        invariant
            i <= entries.len(),
            list == pairs_of(entries@),
            forall|i: int|
                0 <= i < entries@.len() ==> (#[trigger] entries@[i]).0 < weights@.len()
                    && entries@[i].1 < 4,
            f == (|i: int|
                plain_decimal(
                    weights@[list[i].0]@[list[i].1].is_zero,
                    weights@[list[i].0]@[list[i].1].fixed@,
                )),
            r@ == bytes::joined(i as nat, ","@, f),
        decreases entries.len() - i,
    {
        let ghost piece = f(i as int);
        let (v, k) = entries[i];
        assert(entries@[i as int].0 < weights@.len());
        if i > 0 {
            r.append(",");
        }
        r.append(format_f(&weights[v][k]).as_str());
        if i == 0 {
            assert(r@ =~= bytes::joined(1, ","@, f));
        }
        i += 1;
    }
    r
}

/// The vertices and weights of a cluster; nothing for a bone that moves none.
pub open spec fn cluster_lists_text(
    out: Seq<char>,
    entries: Seq<(int, int)>,
    weights: Seq<[Decimal; 4]>,
) -> Seq<char> {
    if entries.len() == 0 {
        out
    } else {
        out + "\t\tIndexes: *"@ + text::decimal(entries.len()) + " {\n\t\t\ta: "@ + cluster_indices_text(entries) + "\n\t\t}\n\t\tWeights: *"@ + text::decimal(entries.len()) + " {\n\t\t\ta: "@ + cluster_weights_text(entries, weights) + "\n\t\t}\n"@
    }
}

fn write_cluster_lists(s: &mut String, entries: &Vec<(usize, usize)>, weights: &Vec<[Decimal; 4]>)
    requires
        forall|i: int|
            0 <= i < entries@.len() ==> (#[trigger] entries@[i]).0 < weights@.len() && entries@[i].1
                < 4,
    ensures
        final(s)@ == cluster_lists_text(old(s)@, pairs_of(entries@), weights@),
{
    if entries.len() > 0 {
        s.append("\t\tIndexes: *");
        text::push_decimal(s, entries.len() as u64);
        s.append(" {\n\t\t\ta: ");
        s.append(join_cluster_indices(entries).as_str());
        s.append("\n\t\t}\n\t\tWeights: *");
        text::push_decimal(s, entries.len() as u64);
        s.append(" {\n\t\t\ta: ");
        s.append(join_cluster_weights(entries, weights).as_str());
        s.append("\n\t\t}\n");
    }
}

/// The cluster of a bone: what it moves, and the bind transforms.
pub open spec fn cluster_text(
    out: Seq<char>,
    bones: Seq<Bone>,
    numbers: FbxNumbers,
    bone: int,
    entries: Seq<(int, int)>,
) -> Seq<char> {
    let head = out + "\tDeformer: "@ + text::decimal((CLUSTER_BASE + bone) as nat) + ", \"SubDeformer::"@ + bones[bone].name@ + "\", \"Cluster\" {\n\t\tVersion: 100\n\t\tMode: \"Total1\"\n"@;
    cluster_lists_text(head, entries, numbers.weights@) + "\t\tTransform: *16 {\n\t\t\ta: 1.0,0,0,0,0,1.0,0,0,0,0,1.0,0,0,0,0,1.0\n\t\t}\n\t\tTransformLink: *16 {\n\t\t\ta: "@ + decimals_text(numbers.global_binds@[bone]@) + "\n\t\t}\n\t}\n"@
}

fn write_cluster(
    s: &mut String,
    skeleton: &Skeleton,
    numbers: &FbxNumbers,
    bone: usize,
    entries: &Vec<(usize, usize)>,
)
    requires
        bone < skeleton.bones@.len(),
        numbers.complete(skeleton.bones@.len()),
        2 * skeleton.bones@.len() + 5 <= usize::MAX,
        forall|i: int|
            0 <= i < entries@.len() ==> (#[trigger] entries@[i]).0 < numbers.weights@.len()
                && entries@[i].1 < 4,
    ensures
        final(s)@ == cluster_text(
            old(s)@,
            skeleton.bones@,
            *numbers,
            bone as int,
            pairs_of(entries@),
        ),
{
    s.append("\tDeformer: ");
    text::push_decimal(s, CLUSTER_BASE as u64 + bone as u64);
    s.append(", \"SubDeformer::");
    s.append(skeleton.bones[bone].name.as_str());
    s.append("\", \"Cluster\" {\n\t\tVersion: 100\n\t\tMode: \"Total1\"\n");
    write_cluster_lists(s, entries, &numbers.weights);
    s.append("\t\tTransform: *16 {\n\t\t\ta: 1.0,0,0,0,0,1.0,0,0,0,0,1.0,0,0,0,0,1.0\n\t\t}\n\t\tTransformLink: *16 {\n\t\t\ta: ");
    s.append(join_decimals(&numbers.global_binds[bone]).as_str());
    s.append("\n\t\t}\n\t}\n");
}

/// The bind pose of a limb.
pub open spec fn pose_node_text(out: Seq<char>, numbers: FbxNumbers, bone: int) -> Seq<char> {
    out + "\t\tPoseNode:  {\n\t\t\tNode: "@ + text::decimal((LIMB_BASE + bone) as nat) + "\n\t\t\tMatrix: *16 {\n\t\t\t\ta: "@ + decimals_text(numbers.global_binds@[bone]@) + "\n\t\t\t}\n\t\t}\n"@
}

fn write_pose_node(s: &mut String, numbers: &FbxNumbers, bone: usize)
    requires
        bone < numbers.global_binds@.len(),
        2 * numbers.global_binds@.len() + 5 <= usize::MAX,
    ensures
        final(s)@ == pose_node_text(old(s)@, *numbers, bone as int),
{
    s.append("\t\tPoseNode:  {\n\t\t\tNode: ");
    text::push_decimal(s, LIMB_BASE as u64 + bone as u64);
    s.append("\n\t\t\tMatrix: *16 {\n\t\t\t\ta: ");
    s.append(join_decimals(&numbers.global_binds[bone]).as_str());
    s.append("\n\t\t\t}\n\t\t}\n");
}

/// A limb hangs on its parent limb, a root limb on the scene.
pub open spec fn limb_connection_text(out: Seq<char>, bones: Seq<Bone>, bone: int) -> Seq<char> {
    out + "\t;Model::"@ + bones[bone].name@ + " -> parent\n\tC: \"OO\","@ + text::decimal((LIMB_BASE + bone) as nat) + ","@ + text::decimal(parent_id(bones, bone)) + "\n"@
}

fn write_limb_connection(s: &mut String, skeleton: &Skeleton, bone: usize)
    requires
        bone < skeleton.bones@.len(),
        2 * skeleton.bones@.len() + 5 <= usize::MAX,
        parents_in_range(skeleton.bones@),
    ensures
        final(s)@ == limb_connection_text(old(s)@, skeleton.bones@, bone as int),
{
    let parent: u64 = match skeleton.bones[bone].parent {
        Some(p) => {
            assert(skeleton.bones@[bone as int].parent == Some(p));
            LIMB_BASE as u64 + p as u64
        },
        None => 0,
    };
    s.append("\t;Model::");
    s.append(skeleton.bones[bone].name.as_str());
    s.append(" -> parent\n\tC: \"OO\",");
    text::push_decimal(s, LIMB_BASE as u64 + bone as u64);
    s.append(",");
    text::push_decimal(s, parent);
    s.append("\n");
}

/// A cluster belongs to the skin, and its limb drives it.
pub open spec fn cluster_connection_text(out: Seq<char>, bones: Seq<Bone>, bone: int) -> Seq<char> {
    out + "\t;SubDeformer::"@ + bones[bone].name@ + " -> Deformer::skin\n\tC: \"OO\","@ + text::decimal((CLUSTER_BASE + bone) as nat) + ",1000002\n\t;Model::"@ + bones[bone].name@ + " -> SubDeformer\n\tC: \"OO\","@ + text::decimal((LIMB_BASE + bone) as nat) + ","@ + text::decimal((CLUSTER_BASE + bone) as nat) + "\n"@
}

fn write_cluster_connection(s: &mut String, skeleton: &Skeleton, bone: usize)
    requires
        bone < skeleton.bones@.len(),
        2 * skeleton.bones@.len() + 5 <= usize::MAX,
    ensures
        final(s)@ == cluster_connection_text(old(s)@, skeleton.bones@, bone as int),
{
    s.append("\t;SubDeformer::");
    s.append(skeleton.bones[bone].name.as_str());
    s.append(" -> Deformer::skin\n\tC: \"OO\",");
    text::push_decimal(s, CLUSTER_BASE as u64 + bone as u64);
    s.append(",1000002\n\t;Model::");
    s.append(skeleton.bones[bone].name.as_str());
    s.append(" -> SubDeformer\n\tC: \"OO\",");
    text::push_decimal(s, LIMB_BASE as u64 + bone as u64);
    s.append(",");
    text::push_decimal(s, CLUSTER_BASE as u64 + bone as u64);
    s.append("\n");
}

/// The limbs of the first `n` bones.
pub open spec fn limbs_text(out: Seq<char>, bones: Seq<Bone>, numbers: FbxNumbers, n: nat) -> Seq<
    char,
>
    decreases n,
{
    if n == 0 {
        out
    } else {
        limb_text(limbs_text(out, bones, numbers, (n - 1) as nat), bones, numbers, n - 1)
    }
}

/// The clusters of the first `n` bones.
pub open spec fn clusters_text(
    out: Seq<char>,
    bones: Seq<Bone>,
    numbers: FbxNumbers,
    sets: Seq<VertexInfluences>,
    n: nat,
) -> Seq<char>
    decreases n,
{
    if n == 0 {
        out
    } else {
        cluster_text(
            clusters_text(out, bones, numbers, sets, (n - 1) as nat),
            bones,
            numbers,
            n - 1,
            entries_of(sets, n - 1),
        )
    }
}

/// What the cluster of a bone lists: a bone beyond the influence range moves
/// nothing.
pub open spec fn entries_of(sets: Seq<VertexInfluences>, bone: int) -> Seq<(int, int)> {
    if bone <= u16::MAX {
        cluster_of(sets, bone)
    } else {
        Seq::empty()
    }
}

/// The bind poses of the first `n` limbs.
pub open spec fn pose_nodes_text(out: Seq<char>, numbers: FbxNumbers, n: nat) -> Seq<char>
    decreases n,
{
    if n == 0 {
        out
    } else {
        pose_node_text(pose_nodes_text(out, numbers, (n - 1) as nat), numbers, n - 1)
    }
}

/// The bind pose: the mesh at the origin, then every limb.
pub open spec fn bind_pose_text(out: Seq<char>, numbers: FbxNumbers, bones: nat) -> Seq<char> {
    pose_nodes_text(
        out + "\tPose: 4000000, \"Pose::BIND_POSES\", \"BindPose\" {\n\t\tType: \"BindPose\"\n\t\tVersion: 100\n\t\tNbPoseNodes: "@ + text::decimal(bones + 1) + "\n\t\tPoseNode:  {\n\t\t\tNode: 1000001\n\t\t\tMatrix: *16 {\n\t\t\t\ta: 1.0,0,0,0,0,1.0,0,0,0,0,1.0,0,0,0,0,1.0\n\t\t\t}\n\t\t}\n"@,
        numbers,
        bones,
    ) + "\t}\n"@
}

/// The parent links of the first `n` limbs.
pub open spec fn limb_connections_text(out: Seq<char>, bones: Seq<Bone>, n: nat) -> Seq<char>
    decreases n,
{
    if n == 0 {
        out
    } else {
        limb_connection_text(limb_connections_text(out, bones, (n - 1) as nat), bones, n - 1)
    }
}

/// The links of the first `n` clusters.
pub open spec fn cluster_connections_text(out: Seq<char>, bones: Seq<Bone>, n: nat) -> Seq<char>
    decreases n,
{
    if n == 0 {
        out
    } else {
        cluster_connection_text(cluster_connections_text(out, bones, (n - 1) as nat), bones, n - 1)
    }
}

/// All connections.
pub open spec fn connections_text(out: Seq<char>, bones: Seq<Bone>) -> Seq<char> {
    let fixed = out + "Connections:  {\n\t;Model::mesh, Model::RootNode\n\tC: \"OO\",1000001,0\n\t;Geometry::mesh, Model::mesh\n\tC: \"OO\",1000000,1000001\n\t;Deformer::skin, Geometry::mesh\n\tC: \"OO\",1000002,1000000\n"@;
    cluster_connections_text(
        limb_connections_text(fixed, bones, bones.len()),
        bones,
        bones.len(),
    ) + "}\n"@
}

/// The whole file.
pub open spec fn file_text(mesh: SkinnedMesh, bones: Seq<Bone>, numbers: FbxNumbers) -> Seq<char> {
    let counts = definitions_text(header_text(""@), bones.len());
    let model = mesh_model_text(geometry_text(counts + "Objects:  {\n"@, mesh, numbers));
    let skin = skin_deformer_text(limbs_text(model, bones, numbers, bones.len()));
    let moved = clusters_text(skin, bones, numbers, mesh.influences@, bones.len());
    connections_text(bind_pose_text(moved, numbers, bones.len()) + "}\n\n"@, bones)
}

fn write_bind_pose(s: &mut String, numbers: &FbxNumbers, bones: usize)
    requires
        numbers.global_binds@.len() == bones,
        2 * bones + 5 <= usize::MAX,
    ensures
        final(s)@ == bind_pose_text(old(s)@, *numbers, bones as nat),
{
    s.append("\tPose: 4000000, \"Pose::BIND_POSES\", \"BindPose\" {\n\t\tType: \"BindPose\"\n\t\tVersion: 100\n\t\tNbPoseNodes: ");
    text::push_decimal(s, (bones + 1) as u64);
    s.append("\n\t\tPoseNode:  {\n\t\t\tNode: 1000001\n\t\t\tMatrix: *16 {\n\t\t\t\ta: 1.0,0,0,0,0,1.0,0,0,0,0,1.0,0,0,0,0,1.0\n\t\t\t}\n\t\t}\n");
    let ghost start = s@;
    let mut i: usize = 0;
    while i < bones
        invariant
            i <= bones,
            numbers.global_binds@.len() == bones,
            2 * bones + 5 <= usize::MAX,
            s@ == pose_nodes_text(start, *numbers, i as nat),
        decreases bones - i,
    {
        write_pose_node(s, numbers, i);
        i += 1;
    }
    s.append("\t}\n");
}

fn write_connections(s: &mut String, skeleton: &Skeleton)
    requires
        2 * skeleton.bones@.len() + 5 <= usize::MAX,
        parents_in_range(skeleton.bones@),
    ensures
        final(s)@ == connections_text(old(s)@, skeleton.bones@),
{
    s.append("Connections:  {\n\t;Model::mesh, Model::RootNode\n\tC: \"OO\",1000001,0\n\t;Geometry::mesh, Model::mesh\n\tC: \"OO\",1000000,1000001\n\t;Deformer::skin, Geometry::mesh\n\tC: \"OO\",1000002,1000000\n");
    let ghost fixed = s@;
    let mut i: usize = 0;
    while i < skeleton.len()
        invariant
            i <= skeleton.bones@.len(),
            2 * skeleton.bones@.len() + 5 <= usize::MAX,
            parents_in_range(skeleton.bones@),
            s@ == limb_connections_text(fixed, skeleton.bones@, i as nat),
        decreases skeleton.bones@.len() - i,
    {
        write_limb_connection(s, skeleton, i);
        i += 1;
    }
    let ghost hung = s@;
    let mut j: usize = 0;
    while j < skeleton.len()
        invariant
            j <= skeleton.bones@.len(),
            2 * skeleton.bones@.len() + 5 <= usize::MAX,
            s@ == cluster_connections_text(hung, skeleton.bones@, j as nat),
        decreases skeleton.bones@.len() - j,
    {
        write_cluster_connection(s, skeleton, j);
        j += 1;
    }
    s.append("}\n");
}

proof fn slots_feeding_in_range(set: Seq<Influence>, v: int, bone: u16, n: nat)
    ensures
        forall|i: int|
            0 <= i < slots_feeding(set, v, bone, n).len() ==> {
                &&& (#[trigger] slots_feeding(set, v, bone, n)[i]).0 == v
                &&& 0 <= slots_feeding(set, v, bone, n)[i].1 < n
            },
    decreases n,
{
    if n > 0 {
        slots_feeding_in_range(set, v, bone, (n - 1) as nat);
        let before = slots_feeding(set, v, bone, (n - 1) as nat);
        let after = slots_feeding(set, v, bone, n);
        assert forall|i: int| 0 <= i < after.len() implies (#[trigger] after[i]).0 == v && 0
            <= after[i].1 < n by {
            if i < before.len() {
                assert(before[i].0 == v);
            }
        }
    }
}

/// The slots that a cluster lists are slots of vertices.
pub proof fn cluster_in_range(sets: Seq<VertexInfluences>, bone: int, n: nat)
    requires
        n <= sets.len(),
    ensures
        ({
            let list = bytes::flat(n, |v: int| slots_feeding(sets[v]@, v, bone as u16, 4));
            forall|i: int|
                0 <= i < list.len() ==> 0 <= (#[trigger] list[i]).0 < n && 0 <= list[i].1 < 4
        }),
    decreases n,
{
    if n > 0 {
        cluster_in_range(sets, bone, (n - 1) as nat);
        slots_feeding_in_range(sets[n - 1]@, n - 1, bone as u16, 4);
        let f = |v: int| slots_feeding(sets[v]@, v, bone as u16, 4);
        let before = bytes::flat((n - 1) as nat, f);
        let own = slots_feeding(sets[n - 1]@, n - 1, bone as u16, 4);
        let list = bytes::flat(n, f);
        assert(list == before + own);
        assert forall|i: int| 0 <= i < list.len() implies 0 <= (#[trigger] list[i]).0 < n && 0
            <= list[i].1 < 4 by {
            if i < before.len() {
                assert(list[i] == before[i]);
            } else {
                assert(list[i] == own[i - before.len()]);
            }
        }
    }
}

/// Build the file in memory. An empty mesh is refused.
pub fn build_fbx(mesh: &SkinnedMesh, skeleton: &Skeleton, numbers: &FbxNumbers) -> (r: Result<
    String,
    ExportError,
>)
    requires
        numbers.complete(skeleton.bones@.len()),
        numbers.weights@.len() == mesh.influences@.len(),
        3 * mesh.vertices@.len() <= usize::MAX,
        2 * skeleton.bones@.len() + 5 <= usize::MAX,
        parents_in_range(skeleton.bones@),
    ensures
        match r {
            Ok(out) => mesh.vertices@.len() > 0 && out@ == file_text(
                *mesh,
                skeleton.bones@,
                *numbers,
            ),
            Err(e) => mesh.vertices@.len() == 0 && e == ExportError::Empty,
        },
{
    if mesh.vertices.len() == 0 {
        return Err(ExportError::Empty);
    }
    let lists = clusters(&mesh.influences, skeleton.len());
    let mut s = "".to_owned();
    write_header(&mut s);
    write_definitions(&mut s, skeleton.len());
    s.append("Objects:  {\n");
    write_geometry(&mut s, mesh, numbers);
    write_mesh_model(&mut s);
    let ghost model = s@;
    let mut i: usize = 0;
    while i < skeleton.len()
        invariant
            i <= skeleton.bones@.len(),
            2 * skeleton.bones@.len() + 5 <= usize::MAX,
            numbers.complete(skeleton.bones@.len()),
            s@ == limbs_text(model, skeleton.bones@, *numbers, i as nat),
        decreases skeleton.bones@.len() - i,
    {
        write_limb_model(&mut s, skeleton, numbers, i);
        i += 1;
    }
    write_skin_deformer(&mut s);
    let ghost skin = s@;
    let mut j: usize = 0;
    while j < skeleton.len()
        invariant
            j <= skeleton.bones@.len(),
            2 * skeleton.bones@.len() + 5 <= usize::MAX,
            numbers.complete(skeleton.bones@.len()),
            numbers.weights@.len() == mesh.influences@.len(),
            lists@.len() == skeleton.bones@.len(),
            forall|b: int|
                0 <= b < lists@.len() && b <= u16::MAX ==> pairs_of((#[trigger] lists@[b])@)
                    == cluster_of(mesh.influences@, b),
            forall|b: int| u16::MAX < b < lists@.len() ==> (#[trigger] lists@[b])@.len() == 0,
            s@ == clusters_text(skin, skeleton.bones@, *numbers, mesh.influences@, j as nat),
        decreases skeleton.bones@.len() - j,
    {
        proof {
            let list = lists@[j as int]@;
            if j <= u16::MAX {
                cluster_in_range(mesh.influences@, j as int, mesh.influences@.len());
                assert(pairs_of(list) == cluster_of(mesh.influences@, j as int));
                assert forall|i: int| 0 <= i < list.len() implies (#[trigger] list[i]).0
                    < numbers.weights@.len() && list[i].1 < 4 by {
                    assert(pairs_of(list)[i] == (list[i].0 as int, list[i].1 as int));
                }
            } else {
                assert(pairs_of(list) =~= Seq::empty());
            }
        }
        write_cluster(&mut s, skeleton, numbers, j, &lists[j]);
        j += 1;
    }
    write_bind_pose(&mut s, numbers, skeleton.len());
    s.append("}\n\n");
    write_connections(&mut s, skeleton);
    Ok(s)
}

/// Whether a number is that of an object of a file with `bones` bones.
pub open spec fn is_object_id(id: int, bones: nat) -> bool {
    ||| id == GEOM_ID || id == MODEL_ID || id == SKIN_ID || id == POSE_ID
    ||| LIMB_BASE <= id < LIMB_BASE + bones
    ||| CLUSTER_BASE <= id < CLUSTER_BASE + bones
}

/// Up to a million bones, limbs, clusters and the fixed objects all have
/// different numbers, none of them zero, and every connection of a limb names
/// an object of the file or the scene.
pub proof fn object_numbers_resolve(bones: Seq<Bone>, i: int, j: int)
    requires
        bones.len() <= 1_000_000,
        parents_in_range(bones),
        0 <= i < bones.len(),
        0 <= j < bones.len(),
    ensures
        LIMB_BASE + i != CLUSTER_BASE + j,
        i != j ==> LIMB_BASE + i != LIMB_BASE + j && CLUSTER_BASE + i != CLUSTER_BASE + j,
        LIMB_BASE + i != GEOM_ID && LIMB_BASE + i != MODEL_ID && LIMB_BASE + i != SKIN_ID,
        CLUSTER_BASE + i != GEOM_ID && CLUSTER_BASE + i != MODEL_ID && CLUSTER_BASE + i != SKIN_ID,
        LIMB_BASE + i != POSE_ID && CLUSTER_BASE + i != POSE_ID,
        parent_id(bones, i) == 0 || is_object_id(parent_id(bones, i) as int, bones.len()),
        !is_object_id(0, bones.len()),
{
    assert(bones[i].parent matches Some(p) ==> p < bones.len());
}

/// A number reduced to 32 bits is a signed 32-bit number that differs from it by
/// a multiple of two to the power of 32, and it is the number itself wherever
/// that fits.
pub proof fn wrapped_numbers_fit(n: int)
    ensures
        -0x8000_0000 <= wrap_i32(n) < 0x8000_0000,
        (n - wrap_i32(n)) % 0x1_0000_0000 == 0,
        -0x8000_0000 <= n < 0x8000_0000 ==> wrap_i32(n) == n,
{
}

/// The corners of a triangle can be told apart from its last one: the last is
/// stored as a negative number and the others not, where they fit.
pub proof fn last_corners_are_negative(indices: Seq<u32>, j: int)
    requires
        0 <= j < indices.len(),
        indices[j] < 0x8000_0000,
    ensures
        polygon_entry(indices, j) < 0 <==> j % 3 == 2,
        j % 3 == 2 ==> polygon_entry(indices, j) + 1 == -(indices[j] as int),
        j % 3 != 2 ==> polygon_entry(indices, j) == indices[j],
{
}

} // verus!
