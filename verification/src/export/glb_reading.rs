//! What a reader finds in the parts of a binary glTF file.
//!
//! The data sections give every number back from its place, quoted texts give
//! the text back, and each field of the document has its value behind its label.
use vstd::prelude::*;
use crate::anim::AnimationClip;
use crate::bytes;
use crate::mesh::{Influence, RigVertex, SkinnedMesh, VertexInfluences};
use crate::reading;
use crate::scalar::Scalar;
use crate::skeleton::{Bone, Matrix, Skeleton};
use crate::text;
use super::glb::{GlbNumbers, RestTexts, Section, WeightTotal};
use super::glb;
use super::keys::{ChannelView, Values};
use super::keys;

verus! {

// ── quoted texts ──────────────────────────────────────────────────────────────

/// The text that an escaped one stands for: each backslash is left out, and the
/// character behind it is taken as it is.
pub open spec fn unescaped(s: Seq<char>) -> Seq<char>
    decreases s.len(),
{
    if s.len() == 0 {
        Seq::empty()
    } else if s[0] == '\\' && s.len() >= 2 {
        seq![s[1]] + unescaped(s.skip(2))
    } else {
        seq![s[0]] + unescaped(s.skip(1))
    }
}

/// Where the first quote stands that no backslash escapes.
pub open spec fn closing_quote(s: Seq<char>) -> int
    decreases s.len(),
{
    if s.len() == 0 || s[0] == '"' {
        0
    } else if s[0] == '\\' && s.len() >= 2 {
        2 + closing_quote(s.skip(2))
    } else {
        1 + closing_quote(s.skip(1))
    }
}

/// A quoted text starts with a quote and ends in the first quote behind it that
/// is not escaped; what stands between is the text.
pub proof fn quoted_text_reads_back(s: Seq<char>)
    ensures
        ({
            let q = glb::quoted(s);
            &&& q.len() >= 2 && q[0] == '"' && q.last() == '"'
            &&& closing_quote(q.skip(1)) == q.len() - 2
            &&& unescaped(q.subrange(1, q.len() - 1)) == s
        }),
{
    let f = |i: int| glb::escaped(s[i]);
    let body = bytes::flat(s.len(), f);
    let q = glb::quoted(s);
    assert(q.subrange(1, q.len() - 1) =~= body);
    assert(q.skip(1) =~= body + seq!['"']);
    escapes_read_back(s);
}

proof fn escapes_read_back(s: Seq<char>)
    ensures
        ({
            let body = bytes::flat(s.len(), |i: int| glb::escaped(s[i]));
            &&& unescaped(body) == s
            &&& closing_quote(body + seq!['"']) == body.len()
        }),
    decreases s.len(),
{
    let f = |i: int| glb::escaped(s[i]);
    let body = bytes::flat(s.len(), f);
    if s.len() > 0 {
        let rest = s.drop_first();
        let g = |i: int| glb::escaped(rest[i]);
        let tail = bytes::flat(rest.len(), g);
        escapes_read_back(rest);
        flat_starts(s.len(), f, g);
        assert(body == f(0) + tail);
        let whole = body + seq!['"'];
        assert(whole =~= f(0) + (tail + seq!['"']));
        if s[0] == '"' || s[0] == '\\' {
            assert(f(0) =~= seq!['\\', s[0]]);
            assert(body.skip(2) =~= tail);
            assert(whole.skip(2) =~= tail + seq!['"']);
        } else {
            assert(f(0) =~= seq![s[0]]);
            assert(body.skip(1) =~= tail);
            assert(whole.skip(1) =~= tail + seq!['"']);
        }
        assert(seq![s[0]] + rest =~= s);
    } else {
        assert(body =~= Seq::empty());
        assert((body + seq!['"'])[0] == '"');
    }
}

proof fn flat_starts(n: nat, f: spec_fn(int) -> Seq<char>, g: spec_fn(int) -> Seq<char>)
    requires
        n > 0,
        forall|i: int| 0 <= i < n - 1 ==> #[trigger] g(i) == f(i + 1),
    ensures
        bytes::flat(n, f) == f(0) + bytes::flat((n - 1) as nat, g),
    decreases n,
{
    reveal_with_fuel(bytes::flat, 2);
    if n > 1 {
        flat_starts((n - 1) as nat, f, g);
        assert(g(n - 2) == f(n - 1));
        assert(bytes::flat(n, f) =~= f(0) + bytes::flat((n - 1) as nat, g));
    } else {
        assert(bytes::flat(n, f) =~= f(0) + bytes::flat(0, g));
    }
}

// ── data ──────────────────────────────────────────────────────────────────────

proof fn piece_reads_back(n: nat, piece: spec_fn(int) -> Seq<u8>, size: nat, i: int, at: int)
    requires
        forall|j: int| 0 <= j < n ==> (#[trigger] piece(j)).len() == size,
        0 <= i < n,
        0 <= at,
        at + 4 <= size,
    ensures
        bytes::flat(n, piece).len() == n * size,
        bytes::read_u32(bytes::flat(n, piece), i * size + at) == bytes::read_u32(piece(i), at),
{
    bytes::flat_len(n, piece, size);
    bytes::flat_len(i as nat, piece, size);
    bytes::flat_holds_each_piece(n, piece, i);
    let whole = bytes::flat(n, piece);
    let start = bytes::flat(i as nat, piece).len();
    assert(whole[start + at] == piece(i)[at]);
    assert(whole[start + (at + 1)] == piece(i)[at + 1]);
    assert(whole[start + (at + 2)] == piece(i)[at + 2]);
    assert(whole[start + (at + 3)] == piece(i)[at + 3]);
}

/// Number `k` stands at byte `4 * k`.
pub proof fn numbers_read_back(values: Seq<Scalar>, k: int)
    requires
        0 <= k < values.len(),
    ensures
        glb::scalar_bytes(values).len() == 4 * values.len(),
        bytes::read_u32(glb::scalar_bytes(values), 4 * k) == values[k].bits,
{
    let f = |k: int| bytes::le_u32(values[k].bits);
    assert forall|j: int| 0 <= j < values.len() implies (#[trigger] f(j)).len() == 4 by {
        bytes::le_u32_len(values[j].bits);
    }
    piece_reads_back(values.len(), f, 4, k, 0);
    let b = bytes::le_u32(values[k].bits);
    bytes::le_u32_len(values[k].bits);
    assert(b.subrange(0, 4) =~= b);
    bytes::read_back_u32(b, 0, values[k].bits);
}

proof fn scalars_len(values: Seq<Scalar>)
    ensures
        glb::scalar_bytes(values).len() == 4 * values.len(),
{
    if values.len() > 0 {
        numbers_read_back(values, 0);
    }
}

/// Coordinate `c` of vertex `i` stands at byte `12 * i + 4 * c` of the positions
/// and of the normals, and at byte `8 * i + 4 * c` of the texture coordinates.
pub proof fn vertices_read_back(vertices: Seq<RigVertex>, i: int, c: int)
    requires
        0 <= i < vertices.len(),
        0 <= c < 3,
    ensures
        glb::position_bytes(vertices).len() == 12 * vertices.len(),
        bytes::read_u32(glb::position_bytes(vertices), 12 * i + 4 * c)
            == vertices[i].position@[c].bits,
        glb::normal_bytes(vertices).len() == 12 * vertices.len(),
        bytes::read_u32(glb::normal_bytes(vertices), 12 * i + 4 * c) == vertices[i].normal@[c].bits,
        glb::uv_bytes(vertices).len() == 8 * vertices.len(),
        c < 2 ==> bytes::read_u32(glb::uv_bytes(vertices), 8 * i + 4 * c)
            == vertices[i].uv@[c].bits,
{
    let p = |i: int| glb::scalar_bytes(vertices[i].position@);
    let q = |i: int| glb::scalar_bytes(vertices[i].normal@);
    let t = |i: int| glb::scalar_bytes(vertices[i].uv@);
    assert forall|j: int| 0 <= j < vertices.len() implies (#[trigger] p(j)).len() == 12 by {
        scalars_len(vertices[j].position@);
    }
    assert forall|j: int| 0 <= j < vertices.len() implies (#[trigger] q(j)).len() == 12 by {
        scalars_len(vertices[j].normal@);
    }
    assert forall|j: int| 0 <= j < vertices.len() implies (#[trigger] t(j)).len() == 8 by {
        scalars_len(vertices[j].uv@);
    }
    piece_reads_back(vertices.len(), p, 12, i, 4 * c);
    piece_reads_back(vertices.len(), q, 12, i, 4 * c);
    numbers_read_back(vertices[i].position@, c);
    numbers_read_back(vertices[i].normal@, c);
    piece_reads_back(vertices.len(), t, 8, i, 0);
    if c < 2 {
        piece_reads_back(vertices.len(), t, 8, i, 4 * c);
        numbers_read_back(vertices[i].uv@, c);
    }
}

/// Joint `c` of vertex `i` stands at byte `8 * i + 2 * c` of the joints.
pub proof fn joints_read_back(
    sets: Seq<VertexInfluences>,
    sums: Seq<WeightTotal>,
    i: int,
    c: int,
)
    requires
        0 <= i < sets.len(),
        0 <= c < 4,
    ensures
        ({
            let b = glb::all_joint_bytes(sets, sums);
            &&& b.len() == 8 * sets.len()
            &&& b[8 * i + 2 * c] + 256 * b[8 * i + 2 * c + 1] == glb::packed_joints(
                sets[i]@,
                sums[i],
            )[c]
        }),
{
    let f = |i: int| glb::joint_bytes(glb::packed_joints(sets[i]@, sums[i]));
    assert forall|j: int| 0 <= j < sets.len() implies (#[trigger] f(j)).len() == 8 by {
        let joints = glb::packed_joints(sets[j]@, sums[j]);
        let g = |k: int| bytes::le_u16(joints[k]);
        bytes::flat_len(4, g, 2);
    }
    bytes::flat_len(sets.len(), f, 8);
    bytes::flat_len(i as nat, f, 8);
    bytes::flat_holds_each_piece(sets.len(), f, i);
    let joints = glb::packed_joints(sets[i]@, sums[i]);
    let g = |k: int| bytes::le_u16(joints[k]);
    bytes::flat_len(c as nat, g, 2);
    bytes::flat_len(4, g, 2);
    bytes::flat_holds_each_piece(4, g, c);
    bytes::read_back_u16(joints[c]);
    let whole = glb::all_joint_bytes(sets, sums);
    assert(f(i)[2 * c] == g(c)[0]) by {
        assert(f(i)[bytes::flat(c as nat, g).len() + 0int] == g(c)[0]);
    }
    assert(f(i)[2 * c + 1] == g(c)[1]) by {
        assert(f(i)[bytes::flat(c as nat, g).len() + 1int] == g(c)[1]);
    }
    let start = bytes::flat(i as nat, f).len();
    assert(whole[start + 2 * c] == f(i)[2 * c]);
    assert(whole[start + (2 * c + 1)] == f(i)[2 * c + 1]);
}

/// Weight `c` of vertex `i` stands at byte `16 * i + 4 * c` of the weights.
pub proof fn weights_read_back(
    sets: Seq<VertexInfluences>,
    sums: Seq<WeightTotal>,
    i: int,
    c: int,
)
    requires
        0 <= i < sets.len(),
        0 <= c < 4,
    ensures
        glb::all_weight_bytes(sets, sums).len() == 16 * sets.len(),
        bytes::read_u32(glb::all_weight_bytes(sets, sums), 16 * i + 4 * c) == glb::packed_weights(
            sets[i]@,
            sums[i],
        )[c].bits,
{
    let f = |i: int| glb::scalar_bytes(glb::packed_weights(sets[i]@, sums[i]));
    assert forall|j: int| 0 <= j < sets.len() implies (#[trigger] f(j)).len() == 16 by {
        scalars_len(glb::packed_weights(sets[j]@, sums[j]));
    }
    piece_reads_back(sets.len(), f, 16, i, 4 * c);
    numbers_read_back(glb::packed_weights(sets[i]@, sums[i]), c);
}

/// Index `i` stands at byte `4 * i` of the indices.
pub proof fn indices_read_back(indices: Seq<u32>, i: int)
    requires
        0 <= i < indices.len(),
    ensures
        glb::index_bytes(indices).len() == 4 * indices.len(),
        bytes::read_u32(glb::index_bytes(indices), 4 * i) == indices[i],
{
    let f = |i: int| bytes::le_u32(indices[i]);
    assert forall|j: int| 0 <= j < indices.len() implies (#[trigger] f(j)).len() == 4 by {
        bytes::le_u32_len(indices[j]);
    }
    piece_reads_back(indices.len(), f, 4, i, 0);
    let b = bytes::le_u32(indices[i]);
    bytes::le_u32_len(indices[i]);
    assert(b.subrange(0, 4) =~= b);
    bytes::read_back_u32(b, 0, indices[i]);
}

/// Entry `c` of matrix `i` stands at byte `64 * i + 4 * c` of the matrices.
pub proof fn matrices_read_back(matrices: Seq<Matrix>, i: int, c: int)
    requires
        0 <= i < matrices.len(),
        0 <= c < 16,
    ensures
        glb::matrix_bytes(matrices).len() == 64 * matrices.len(),
        bytes::read_u32(glb::matrix_bytes(matrices), 64 * i + 4 * c) == matrices[i]@[c].bits,
{
    let f = |i: int| glb::scalar_bytes(matrices[i]@);
    assert forall|j: int| 0 <= j < matrices.len() implies (#[trigger] f(j)).len() == 64 by {
        scalars_len(matrices[j]@);
    }
    piece_reads_back(matrices.len(), f, 64, i, 4 * c);
    numbers_read_back(matrices[i]@, c);
}

/// What is stored for a vertex: one whose weights have no sum is bound fully to
/// the first joint. For any other the joint of a slot that carries weight is the
/// slot's bone, and its weight the slot's own or, where the sum is off, the
/// rescaled one.
pub proof fn stored_weights_follow_the_slots(set: Seq<Influence>, sum: WeightTotal, k: int)
    requires
        set.len() == 4,
        0 <= k < 4,
        !sum.total.nan() && !sum.deviation.nan(),
    ensures
        sum.total.spec_le(Scalar::zero()) ==> glb::packed_joints(set, sum)[k] == 0
            && glb::packed_weights(set, sum)[k].bits == (if k == 0 {
            0x3F80_0000u32
        } else {
            0
        }),
        Scalar::zero().spec_lt(sum.total) ==> {
            let tolerance = Scalar { bits: glb::TOTAL_TOLERANCE_BITS };
            &&& set[k].weighted() ==> glb::packed_joints(set, sum)[k] == set[k].bone
            &&& !set[k].weighted() ==> glb::packed_joints(set, sum)[k] == 0
            &&& tolerance.spec_lt(sum.deviation) ==> glb::packed_weights(set, sum)[k]
                == sum.scaled@[k]
            &&& sum.deviation.spec_le(tolerance) && set[k].weighted() ==> glb::packed_weights(
                set,
                sum,
            )[k] == set[k].weight
            &&& sum.deviation.spec_le(tolerance) && !set[k].weighted() ==> glb::packed_weights(
                set,
                sum,
            )[k].bits == 0
        },
{
}

// ── fields of the document ────────────────────────────────────────────────────

/// An accessor names its buffer view, the type of its numbers, how many elements
/// it has and their shape, each behind its label, and ends in what more it says.
pub proof fn accessors_tell_their_fields(
    view: nat,
    component: nat,
    count: nat,
    shape: Seq<char>,
    extra: Seq<char>,
)
    ensures
        ({
            let t = glb::accessor_text(view, component, count, shape, extra);
            &&& reading::holds(
                t,
                "{\"bufferView\":"@ + text::decimal(view) + ",\"componentType\":"@,
            )
            &&& reading::holds(
                t,
                ",\"componentType\":"@ + text::decimal(component) + ",\"count\":"@,
            )
            &&& reading::holds(t, ",\"count\":"@ + text::decimal(count) + ",\"type\":\""@)
            &&& reading::holds(t, ",\"type\":\""@ + shape + "\""@)
            &&& reading::holds(t, "\""@ + extra + "}"@)
        }),
{
    broadcast use reading::held_with_more;

    let (v, c, n) = (text::decimal(view), text::decimal(component), text::decimal(count));
    let a = "{\"bufferView\":"@ + v;
    let b = a + ",\"componentType\":"@ + c;
    let d = b + ",\"count\":"@ + n;
    let e = d + ",\"type\":\""@ + shape;
    reading::start_is_held("{\"bufferView\":"@, v, ",\"componentType\":"@);
    reading::ending_is_held(a, ",\"componentType\":"@, c, ",\"count\":"@);
    reading::ending_is_held(b, ",\"count\":"@, n, ",\"type\":\""@);
    reading::ending_is_held(d, ",\"type\":\""@, shape, "\""@);
    reading::ending_is_held(e, "\""@, extra, "}"@);
}

/// The bounds give the least coordinates behind one label and the greatest
/// behind another, each in the order of the axes.
pub proof fn bounds_tell_their_coordinates(min: Seq<String>, max: Seq<String>)
    ensures
        reading::holds(
            glb::bounds_text(min, max),
            ",\"min\":["@ + (min[0]@ + ","@ + min[1]@ + ","@ + min[2]@) + "],\"max\":["@,
        ),
        reading::holds(
            glb::bounds_text(min, max),
            "],\"max\":["@ + (max[0]@ + ","@ + max[1]@ + ","@ + max[2]@) + "]"@,
        ),
{
    broadcast use reading::held_with_more;

    let least = min[0]@ + ","@ + min[1]@ + ","@ + min[2]@;
    let most = max[0]@ + ","@ + max[1]@ + ","@ + max[2]@;
    let front = ",\"min\":["@ + least;
    let label = "],\"max\":["@;
    reading::start_is_held(",\"min\":["@, least, label);
    reading::ending_is_held(front, label, most, "]"@);
    assert(glb::bounds_text(min, max) =~= front + label + most + "]"@);
}

/// The span of a channel's times gives the earliest and the latest behind their
/// labels.
pub proof fn spans_tell_their_times(span: Seq<String>)
    ensures
        reading::holds(glb::span_text(span), ",\"min\":["@ + span[0]@ + "],\"max\":["@),
        reading::holds(glb::span_text(span), "],\"max\":["@ + span[1]@ + "]"@),
{
    broadcast use reading::held_with_more;

    reading::start_is_held(",\"min\":["@, span[0]@, "],\"max\":["@);
    reading::ending_is_held(",\"min\":["@ + span[0]@, "],\"max\":["@, span[1]@, "]"@);
}

/// A buffer view gives the place and the length of its section, and the target
/// where the section has one.
pub proof fn views_tell_their_sections(sections: Seq<Section>, k: int)
    ensures
        ({
            let t = glb::view_text(sections, k);
            let length = text::decimal(sections[k].data.len());
            &&& reading::holds(
                t,
                "{\"buffer\":0,\"byteOffset\":"@ + text::decimal(glb::offset_of(sections, k))
                    + ",\"byteLength\":"@,
            )
            &&& sections[k].target is None ==> reading::holds(
                t,
                ",\"byteLength\":"@ + length + "}"@,
            )
            &&& sections[k].target matches Some(n) ==> reading::holds(
                t,
                ",\"byteLength\":"@ + length + ",\"target\":"@,
            ) && reading::holds(t, ",\"target\":"@ + text::decimal(n as nat) + "}"@)
        }),
{
    broadcast use reading::held_with_more;

    let place = text::decimal(glb::offset_of(sections, k));
    let length = text::decimal(sections[k].data.len());
    let a = "{\"buffer\":0,\"byteOffset\":"@ + place;
    let b = a + ",\"byteLength\":"@ + length;
    reading::start_is_held("{\"buffer\":0,\"byteOffset\":"@, place, ",\"byteLength\":"@);
    reading::ending_is_held(a, ",\"byteLength\":"@, length, "}"@);
    if let Some(n) = sections[k].target {
        reading::ending_is_held(a, ",\"byteLength\":"@, length, ",\"target\":"@);
        reading::ending_is_held(b, ",\"target\":"@, text::decimal(n as nat), "}"@);
    }
}

/// A node's transform is its matrix, or its translation, rotation and scale,
/// each behind its label.
pub proof fn transforms_tell_their_parts(matrix: Seq<String>, rest: Option<RestTexts>)
    ensures
        ({
            let t = glb::transform_text(matrix, rest);
            match rest {
                None => reading::holds(t, "\"matrix\":["@ + glb::comma_list(matrix) + "]"@),
                Some(r) => {
                    &&& reading::holds(
                        t,
                        "\"translation\":["@ + glb::comma_list(r.translation@)
                            + "],\"rotation\":["@,
                    )
                    &&& reading::holds(
                        t,
                        "],\"rotation\":["@ + glb::comma_list(r.rotation@) + "],\"scale\":["@,
                    )
                    &&& reading::holds(
                        t,
                        "],\"scale\":["@ + glb::comma_list(r.scale@) + "]"@,
                    )
                },
            }
        }),
{
    broadcast use reading::held_with_more;

    match rest {
        None => {
            reading::start_is_held("\"matrix\":["@, glb::comma_list(matrix), "]"@);
        },
        Some(r) => {
            let (x, y, z) = (
                glb::comma_list(r.translation@),
                glb::comma_list(r.rotation@),
                glb::comma_list(r.scale@),
            );
            let a = "\"translation\":["@ + x;
            let b = a + "],\"rotation\":["@ + y;
            reading::start_is_held("\"translation\":["@, x, "],\"rotation\":["@);
            reading::ending_is_held(a, "],\"rotation\":["@, y, "],\"scale\":["@);
            reading::ending_is_held(b, "],\"scale\":["@, z, "]"@);
        },
    }
}

/// A list of numbers with commas gives them back in order, one higher than the
/// bones.
pub proof fn node_numbers_read_back(bones: Seq<int>, k: int)
    requires
        forall|j: int| 0 <= j < bones.len() ==> 0 <= #[trigger] bones[j],
        0 <= k < bones.len(),
    ensures
        reading::split(glb::node_numbers(bones), ',').len() == bones.len(),
        reading::value(reading::split(glb::node_numbers(bones), ',')[k]) == bones[k] + 1,
{
    let f = |k: int| text::decimal((bones[k] + 1) as nat);
    assert forall|j: int| 0 <= j < bones.len() implies !(#[trigger] f(j)).contains(',') by {
        reading::decimal_lacks((bones[j] + 1) as nat, ',');
    }
    reading::list_reads_back(bones.len(), f);
    reading::decimal_reads_back((bones[k] + 1) as nat);
}

/// A bone is listed among the children of another exactly if that is its
/// parent, and among the roots exactly if it has none.
pub proof fn children_and_roots_are_listed(bones: Seq<Bone>, i: int, j: int)
    requires
        0 <= j < bones.len(),
    ensures
        glb::children_of(bones, i).contains(j) <==> bones[j].parent == Some(i as usize),
        glb::roots_of(bones).contains(j) <==> bones[j].parent is None,
{
    crate::listing::listed_iff_satisfied(
        bones.len(),
        |j: int| bones[j].parent == Some(i as usize),
        j,
    );
    crate::listing::listed_iff_satisfied(bones.len(), |j: int| bones[j].parent is None, j);
}

/// A node gives the bone's name in quotes and its transform, and lists the nodes
/// of its children exactly if it has any.
pub proof fn nodes_tell_their_fields(bones: Seq<Bone>, i: int, transform: Seq<char>)
    ensures
        ({
            let t = glb::node_text(bones, i, transform);
            let children = glb::children_of(bones, i);
            &&& reading::holds(t, "{\"name\":"@ + glb::quoted(bones[i].name@) + ","@)
            &&& children.len() == 0 ==> reading::holds(t, ","@ + transform + "}"@)
            &&& children.len() > 0 ==> reading::holds(t, ","@ + transform + ",\"children\":["@)
                && reading::holds(t, ",\"children\":["@ + glb::node_numbers(children) + "]"@)
        }),
{
    broadcast use reading::held_with_more;

    let name = glb::quoted(bones[i].name@);
    let children = glb::children_of(bones, i);
    let a = "{\"name\":"@ + name;
    let b = a + ","@ + transform;
    reading::start_is_held("{\"name\":"@, name, ","@);
    let t = glb::node_text(bones, i, transform);
    if children.len() == 0 {
        reading::ending_is_held(a, ","@, transform, "}"@);
        assert(t =~= b + "}"@);
    } else {
        reading::ending_is_held(a, ","@, transform, ",\"children\":["@);
        reading::ending_is_held(b, ",\"children\":["@, glb::node_numbers(children), "]"@);
        assert(t =~= b + ",\"children\":["@ + glb::node_numbers(children) + "]"@ + "}"@);
    }
}

/// A channel names its sampler, its node and the property that it drives.
pub proof fn channels_tell_their_fields(channels: Seq<ChannelView>, first: int, k: int)
    ensures
        ({
            let t = glb::channel_text(channels, first, k);
            let c = channels[first + k];
            &&& reading::holds(
                t,
                "{\"sampler\":"@ + text::decimal(k as nat) + ",\"target\":{\"node\":"@,
            )
            &&& reading::holds(
                t,
                ",\"target\":{\"node\":"@ + text::decimal(c.node as nat) + ",\"path\":\""@,
            )
            &&& c.values is Translations ==> reading::holds(
                t,
                ",\"path\":\""@ + "translation"@ + "\"}}"@,
            )
            &&& c.values is Rotations ==> reading::holds(
                t,
                ",\"path\":\""@ + "rotation"@ + "\"}}"@,
            )
            &&& c.values is Scales ==> reading::holds(t, ",\"path\":\""@ + "scale"@ + "\"}}"@)
        }),
{
    broadcast use reading::held_with_more;

    let c = channels[first + k];
    let (s, n) = (text::decimal(k as nat), text::decimal(c.node as nat));
    let a = "{\"sampler\":"@ + s;
    let b = a + ",\"target\":{\"node\":"@ + n;
    reading::start_is_held("{\"sampler\":"@, s, ",\"target\":{\"node\":"@);
    reading::ending_is_held(a, ",\"target\":{\"node\":"@, n, ",\"path\":\""@);
    reading::ending_is_held(b, ",\"path\":\""@, glb::path_text(c.values), "\"}}"@);
}

/// A sampler reads the times of its channel from one accessor and the values
/// from the next, and fills in between on a line. The section of the same number
/// holds the times, the next one the values.
pub proof fn samplers_read_their_channels(
    mesh: SkinnedMesh,
    numbers: GlbNumbers,
    channels: Seq<ChannelView>,
    g: int,
)
    requires
        0 <= g < channels.len(),
    ensures
        ({
            let t = glb::sampler_text(g);
            let sections = glb::all_sections(mesh, numbers, channels);
            let (input, output) = (7 + 2 * g, 8 + 2 * g);
            &&& reading::holds(
                t,
                "{\"input\":"@ + text::decimal(input as nat) + ",\"output\":"@,
            )
            &&& reading::holds(
                t,
                ",\"output\":"@ + text::decimal(output as nat)
                    + ",\"interpolation\":\"LINEAR\"}"@,
            )
            &&& sections.len() == 7 + 2 * channels.len()
            &&& sections[input].data == glb::scalar_bytes(channels[g].times)
            &&& sections[input].target is None && sections[output].target is None
            &&& sections[output].data == glb::value_bytes(channels[g].values)
        }),
{
    broadcast use reading::held_with_more;

    let (i, o) = (text::decimal((7 + 2 * g) as nat), text::decimal((8 + 2 * g) as nat));
    reading::start_is_held("{\"input\":"@, i, ",\"output\":"@);
    reading::ending_is_held(
        "{\"input\":"@ + i,
        ",\"output\":"@,
        o,
        ",\"interpolation\":\"LINEAR\"}"@,
    );
    let sections = glb::all_sections(mesh, numbers, channels);
    assert(glb::sections_of(mesh, numbers).len() == 7);
    assert(sections[7 + 2 * g] == glb::key_sections(channels)[2 * g]);
    assert(sections[8 + 2 * g] == glb::key_sections(channels)[2 * g + 1]);
}

/// The values of a channel stand one after the other: three numbers for a
/// translation or a scale, four for a rotation.
pub proof fn key_values_read_back(values: Values, i: int, c: int)
    requires
        0 <= i,
        0 <= c < 4,
    ensures
        values matches Values::Rotations(v) ==> (i < v.len() ==> bytes::read_u32(
            glb::value_bytes(values),
            16 * i + 4 * c,
        ) == v[i]@[c].bits),
        values matches Values::Translations(v) ==> (i < v.len() && c < 3 ==> bytes::read_u32(
            glb::value_bytes(values),
            12 * i + 4 * c,
        ) == v[i]@[c].bits),
        values matches Values::Scales(v) ==> (i < v.len() && c < 3 ==> bytes::read_u32(
            glb::value_bytes(values),
            12 * i + 4 * c,
        ) == v[i]@[c].bits),
{
    match values {
        Values::Rotations(v) => {
            let f = |i: int| glb::scalar_bytes(v[i]@);
            assert forall|j: int| 0 <= j < v.len() implies (#[trigger] f(j)).len() == 16 by {
                scalars_len(v[j]@);
            }
            if i < v.len() {
                piece_reads_back(v.len(), f, 16, i, 4 * c);
                numbers_read_back(v[i]@, c);
            }
        },
        Values::Translations(v) => {
            let f = |i: int| glb::scalar_bytes(v[i]@);
            assert forall|j: int| 0 <= j < v.len() implies (#[trigger] f(j)).len() == 12 by {
                scalars_len(v[j]@);
            }
            if i < v.len() && c < 3 {
                piece_reads_back(v.len(), f, 12, i, 4 * c);
                numbers_read_back(v[i]@, c);
            }
        },
        Values::Scales(v) => {
            let f = |i: int| glb::scalar_bytes(v[i]@);
            assert forall|j: int| 0 <= j < v.len() implies (#[trigger] f(j)).len() == 12 by {
                scalars_len(v[j]@);
            }
            if i < v.len() && c < 3 {
                piece_reads_back(v.len(), f, 12, i, 4 * c);
                numbers_read_back(v[i]@, c);
            }
        },
        Values::Other => {},
    }
}

/// The sections of a mesh hold, in this order, its positions, normals, texture
/// coordinates, joints, weights, indices and inverse bind matrices. The first
/// five are for vertices, the sixth for indices.
pub proof fn sections_hold_the_mesh(
    mesh: SkinnedMesh,
    numbers: GlbNumbers,
    channels: Seq<ChannelView>,
)
    ensures
        ({
            let s = glb::all_sections(mesh, numbers, channels);
            &&& s[0].data == glb::position_bytes(mesh.vertices@)
            &&& s[1].data == glb::normal_bytes(mesh.vertices@)
            &&& s[2].data == glb::uv_bytes(mesh.vertices@)
            &&& s[3].data == glb::all_joint_bytes(mesh.influences@, numbers.sums@)
            &&& s[4].data == glb::all_weight_bytes(mesh.influences@, numbers.sums@)
            &&& s[5].data == glb::index_bytes(mesh.indices@)
            &&& s[6].data == glb::matrix_bytes(numbers.inverse_binds@)
            &&& forall|k: int| 0 <= k < 5 ==> (#[trigger] s[k]).target == Some(34962u32)
            &&& s[5].target == Some(34963u32)
            &&& s[6].target is None
        }),
{
    let first = glb::sections_of(mesh, numbers);
    let s = glb::all_sections(mesh, numbers, channels);
    assert(first.len() == 7);
    assert forall|k: int| 0 <= k < 7 implies #[trigger] s[k] == first[k] by {}
}

/// The skin reads its inverse bind matrices from accessor six, names the first
/// root as its skeleton, and lists the nodes of all bones in their order.
pub proof fn skins_tell_their_joints(bones: Seq<Bone>)
    ensures
        ({
            let t = glb::skin_text(bones);
            let roots = glb::roots_of(bones);
            &&& roots.len() > 0 ==> reading::holds(
                t,
                "{\"inverseBindMatrices\":6,\"skeleton\":"@ + text::decimal((roots[0] + 1) as nat)
                    + ",\"joints\":["@,
            )
            &&& reading::holds(
                t,
                ",\"joints\":["@ + glb::node_numbers(Seq::new(bones.len(), |i: int| i)) + "]}"@,
            )
        }),
{
    broadcast use reading::held_with_more;

    let roots = glb::roots_of(bones);
    let root = text::decimal(
        if roots.len() > 0 {
            (roots[0] + 1) as nat
        } else {
            1
        },
    );
    let label = "{\"inverseBindMatrices\":6,\"skeleton\":"@;
    let joints = glb::node_numbers(Seq::new(bones.len(), |i: int| i));
    reading::start_is_held(label, root, ",\"joints\":["@);
    reading::ending_is_held(label + root, ",\"joints\":["@, joints, "]}"@);
}

/// The scene shows node zero, which is the mesh, and behind it the nodes of the
/// roots.
pub proof fn scenes_show_mesh_and_roots(bones: Seq<Bone>)
    ensures
        glb::scene_text(bones)[0] == '0',
        glb::roots_of(bones).len() == 0 ==> glb::scene_text(bones).len() == 1,
        glb::roots_of(bones).len() > 0 ==> glb::scene_text(bones)[1] == ',' && glb::scene_text(
            bones,
        ).skip(2) == glb::node_numbers(glb::roots_of(bones)),
{
    reveal_strlit("0,");
    reveal_strlit("0");
    if glb::roots_of(bones).len() > 0 {
        assert(glb::scene_text(bones).skip(2) =~= glb::node_numbers(glb::roots_of(bones)));
    }
}

/// An animation gives its name in quotes and then its channels and its samplers,
/// in the same order.
pub proof fn animations_tell_their_fields(
    name: Seq<char>,
    channels: Seq<ChannelView>,
    first: int,
    n: nat,
    k: int,
)
    requires
        0 <= k < n,
    ensures
        ({
            let t = glb::animation_text(name, channels, first, n);
            let list = bytes::joined(n, ","@, |k: int| glb::channel_text(channels, first, k));
            let samplers = bytes::joined(n, ","@, |k: int| glb::sampler_text(first + k));
            &&& reading::holds(t, "{\"name\":"@ + glb::quoted(name) + ",\"channels\":["@)
            &&& reading::holds(t, ",\"channels\":["@ + list + "],\"samplers\":["@)
            &&& reading::holds(t, "],\"samplers\":["@ + samplers + "]}"@)
            &&& reading::holds(list, glb::channel_text(channels, first, k))
            &&& reading::holds(samplers, glb::sampler_text(first + k))
        }),
{
    broadcast use reading::held_with_more;

    let f = |k: int| glb::channel_text(channels, first, k);
    let g = |k: int| glb::sampler_text(first + k);
    let (list, samplers) = (bytes::joined(n, ","@, f), bytes::joined(n, ","@, g));
    let q = glb::quoted(name);
    let a = "{\"name\":"@ + q;
    let b = a + ",\"channels\":["@ + list;
    reading::start_is_held("{\"name\":"@, q, ",\"channels\":["@);
    reading::ending_is_held(a, ",\"channels\":["@, list, "],\"samplers\":["@);
    reading::ending_is_held(b, "],\"samplers\":["@, samplers, "]}"@);
    reading::joined_holds(n, ","@, f, k);
    reading::joined_holds(n, ","@, g, k);
}

/// The accessor of a mesh part has the number of its section, and its element
/// count times the size of an element is the length of the section.
pub proof fn accessors_fit_their_sections(
    mesh: SkinnedMesh,
    skeleton: Skeleton,
    numbers: GlbNumbers,
)
    requires
        mesh.influences@.len() == mesh.vertices@.len() > 0,
        numbers.sums@.len() == mesh.vertices@.len(),
        numbers.inverse_binds@.len() == skeleton.bones@.len() > 0,
        mesh.indices@.len() > 0,
    ensures
        ({
            let s = glb::sections_of(mesh, numbers);
            let n = mesh.vertices@.len();
            &&& s[0].data.len() == n * 3 * 4 && s[1].data.len() == n * 3 * 4
            &&& s[2].data.len() == n * 2 * 4
            &&& s[3].data.len() == n * 4 * 2
            &&& s[4].data.len() == n * 4 * 4
            &&& s[5].data.len() == mesh.indices@.len() * 4
            &&& s[6].data.len() == skeleton.bones@.len() * 16 * 4
        }),
{
    vertices_read_back(mesh.vertices@, 0, 0);
    joints_read_back(mesh.influences@, numbers.sums@, 0, 0);
    weights_read_back(mesh.influences@, numbers.sums@, 0, 0);
    indices_read_back(mesh.indices@, 0);
    matrices_read_back(numbers.inverse_binds@, 0, 0);
}

/// Each accessor of a mesh part reads the section of its own number, with the
/// type and the shape of what stands there, and that of the positions carries
/// their bounds.
pub proof fn accessors_read_their_sections(
    mesh: SkinnedMesh,
    skeleton: Skeleton,
    numbers: GlbNumbers,
    channels: Seq<ChannelView>,
    spans: Seq<[String; 2]>,
    k: int,
)
    requires
        0 <= k < 7,
    ensures
        ({
            let t = glb::accessor_of(mesh, skeleton, numbers, channels, spans, k);
            let n = mesh.vertices@.len();
            let (component, count) = if k == 3 {
                (5123nat, n)
            } else if k == 5 {
                (5125, mesh.indices@.len())
            } else if k == 6 {
                (5126, skeleton.bones@.len())
            } else {
                (5126, n)
            };
            &&& reading::holds(
                t,
                "{\"bufferView\":"@ + text::decimal(k as nat) + ",\"componentType\":"@,
            )
            &&& reading::holds(
                t,
                ",\"componentType\":"@ + text::decimal(component) + ",\"count\":"@,
            )
            &&& reading::holds(t, ",\"count\":"@ + text::decimal(count) + ",\"type\":\""@)
            &&& k == 0 || k == 1 ==> reading::holds(t, ",\"type\":\""@ + "VEC3"@ + "\""@)
            &&& k == 2 ==> reading::holds(t, ",\"type\":\""@ + "VEC2"@ + "\""@)
            &&& k == 3 || k == 4 ==> reading::holds(t, ",\"type\":\""@ + "VEC4"@ + "\""@)
            &&& k == 5 ==> reading::holds(t, ",\"type\":\""@ + "SCALAR"@ + "\""@)
            &&& k == 6 ==> reading::holds(t, ",\"type\":\""@ + "MAT4"@ + "\""@)
            &&& k == 0 ==> reading::holds(
                t,
                "\""@ + glb::bounds_text(numbers.min_text@, numbers.max_text@) + "}"@,
            )
        }),
{
    let n = mesh.vertices@.len();
    accessors_tell_their_fields(
        0,
        5126,
        n,
        "VEC3"@,
        glb::bounds_text(numbers.min_text@, numbers.max_text@),
    );
    accessors_tell_their_fields(1, 5126, n, "VEC3"@, ""@);
    accessors_tell_their_fields(2, 5126, n, "VEC2"@, ""@);
    accessors_tell_their_fields(3, 5123, n, "VEC4"@, ""@);
    accessors_tell_their_fields(4, 5126, n, "VEC4"@, ""@);
    accessors_tell_their_fields(5, 5125, mesh.indices@.len(), "SCALAR"@, ""@);
    accessors_tell_their_fields(6, 5126, skeleton.bones@.len(), "MAT4"@, ""@);
}

/// The accessors of a channel read the sections of their own numbers: one number
/// per time with the span of the times, and one element per value, of four
/// numbers for rotations and of three otherwise.
pub proof fn key_accessors_read_their_sections(
    channels: Seq<ChannelView>,
    spans: Seq<[String; 2]>,
    g: int,
)
    requires
        0 <= g < channels.len(),
    ensures
        ({
            let times = glb::key_accessor(channels, spans, 2 * g);
            let values = glb::key_accessor(channels, spans, 2 * g + 1);
            let c = channels[g];
            &&& reading::holds(
                times,
                "{\"bufferView\":"@ + text::decimal((7 + 2 * g) as nat) + ",\"componentType\":"@,
            )
            &&& reading::holds(
                values,
                "{\"bufferView\":"@ + text::decimal((8 + 2 * g) as nat) + ",\"componentType\":"@,
            )
            &&& reading::holds(
                times,
                ",\"count\":"@ + text::decimal(c.times.len()) + ",\"type\":\""@,
            )
            &&& reading::holds(times, ",\"type\":\""@ + "SCALAR"@ + "\""@)
            &&& reading::holds(times, "\""@ + glb::span_text(spans[g]@) + "}"@)
            &&& reading::holds(
                values,
                ",\"count\":"@ + text::decimal(glb::value_count(c.values)) + ",\"type\":\""@,
            )
            &&& c.values is Rotations ==> reading::holds(
                values,
                ",\"type\":\""@ + "VEC4"@ + "\""@,
            )
            &&& c.values !is Rotations ==> reading::holds(
                values,
                ",\"type\":\""@ + "VEC3"@ + "\""@,
            )
        }),
{
    let c = channels[g];
    accessors_tell_their_fields(
        (7 + 2 * g) as nat,
        5126,
        c.times.len(),
        "SCALAR"@,
        glb::span_text(spans[g]@),
    );
    accessors_tell_their_fields(
        (8 + 2 * g) as nat,
        5126,
        glb::value_count(c.values),
        glb::shape_text(c.values),
        ""@,
    );
}

/// The document lists every node, accessor and buffer view by number, the skin
/// and the animations, each list behind its label, and tells the length of the
/// data.
pub proof fn documents_list_their_parts(
    mesh: SkinnedMesh,
    skeleton: Skeleton,
    numbers: GlbNumbers,
    clips: Seq<AnimationClip>,
    spans: Seq<[String; 2]>,
    rests: Seq<RestTexts>,
)
    ensures
        ({
            let t = glb::document_text(mesh, skeleton, numbers, clips, spans, rests);
            let bones = skeleton.bones@;
            let channels = glb::all_channels(clips, bones.len());
            let sections = glb::all_sections(mesh, numbers, channels);
            let n = sections.len();
            let nodes = bytes::joined(
                bones.len() + 1,
                ","@,
                |k: int| glb::node_of(skeleton, numbers, channels, rests, k),
            );
            let accessors = bytes::joined(
                n,
                ","@,
                |k: int| glb::accessor_of(mesh, skeleton, numbers, channels, spans, k),
            );
            let views = bytes::joined(n, ","@, |k: int| glb::view_text(sections, k));
            &&& reading::holds(t, "\"nodes\":["@ + glb::scene_text(bones) + "]}],\"nodes\":["@)
            &&& reading::holds(t, "]}],\"nodes\":["@ + nodes + "],\"meshes\":["@)
            &&& reading::holds(
                t,
                "\"POSITION\":0,\"NORMAL\":1,\"TEXCOORD_0\":2,\"JOINTS_0\":3,\"WEIGHTS_0\":4},\"indices\":5"@,
            )
            &&& reading::holds(t, "\"skins\":["@ + glb::skin_text(bones) + "]"@)
            &&& reading::holds(t, "]"@ + glb::animations_text(clips, bones.len()) + ",\"accessors\":["@)
            &&& reading::holds(t, ",\"accessors\":["@ + accessors + "],\"bufferViews\":["@)
            &&& reading::holds(
                t,
                "],\"bufferViews\":["@ + views + "],\"buffers\":[{\"byteLength\":"@,
            )
            &&& reading::holds(
                t,
                "],\"buffers\":[{\"byteLength\":"@ + text::decimal(
                    glb::buffer_of(sections, n).len(),
                ) + "}]}"@,
            )
        }),
{
    broadcast use reading::held_with_more;

    let bones = skeleton.bones@;
    let channels = glb::all_channels(clips, bones.len());
    let sections = glb::all_sections(mesh, numbers, channels);
    let n = sections.len();
    let nodes = bytes::joined(
        bones.len() + 1,
        ","@,
        |k: int| glb::node_of(skeleton, numbers, channels, rests, k),
    );
    let accessors = bytes::joined(
        n,
        ","@,
        |k: int| glb::accessor_of(mesh, skeleton, numbers, channels, spans, k),
    );
    let views = bytes::joined(n, ","@, |k: int| glb::view_text(sections, k));
    let size = text::decimal(glb::buffer_of(sections, n).len());
    let scene = glb::scene_text(bones);
    let skin = glb::skin_text(bones);
    let animations = glb::animations_text(clips, bones.len());
    let head = "{\"asset\":{\"version\":\"2.0\",\"generator\":\"Cube Bauhaus rig bay\"},\"scene\":0,\"scenes\":[{\"nodes\":["@;
    let after_scene = "]}],\"nodes\":["@;
    let middle = "],\"meshes\":[{\"primitives\":[{\"attributes\":{\"POSITION\":0,\"NORMAL\":1,\"TEXCOORD_0\":2,\"JOINTS_0\":3,\"WEIGHTS_0\":4},\"indices\":5}]}],\"skins\":["@;
    let a = head + scene;
    let b = a + after_scene + nodes;
    let c = b + middle;
    let d = c + skin;
    let e = d + "]"@ + animations;
    let f = e + ",\"accessors\":["@ + accessors;
    let g = f + "],\"bufferViews\":["@ + views;
    assert(reading::holds(a + after_scene, "\"nodes\":["@ + scene + after_scene)) by {
        head_ends();
        let front = head.take(head.len() - "\"nodes\":["@.len());
        assert(head =~= front + "\"nodes\":["@);
        reading::ending_is_held(front, "\"nodes\":["@, scene, after_scene);
        assert(front + "\"nodes\":["@ + scene + after_scene =~= a + after_scene);
    }
    assert(reading::holds(c, after_scene + nodes + "],\"meshes\":["@)) by {
        middle_starts_and_ends();
        let rest = middle.skip("],\"meshes\":["@.len() as int);
        assert(middle =~= "],\"meshes\":["@ + rest);
        reading::ending_is_held(a, after_scene, nodes, "],\"meshes\":["@);
        assert(c =~= (a + after_scene + nodes + "],\"meshes\":["@) + rest);
    }
    assert(reading::holds(
        c,
        "\"POSITION\":0,\"NORMAL\":1,\"TEXCOORD_0\":2,\"JOINTS_0\":3,\"WEIGHTS_0\":4},\"indices\":5"@,
    )) by {
        middle_names_the_attributes();
        reading::held_behind(
            b,
            middle,
            "\"POSITION\":0,\"NORMAL\":1,\"TEXCOORD_0\":2,\"JOINTS_0\":3,\"WEIGHTS_0\":4},\"indices\":5"@,
        );
    }
    assert(reading::holds(d + "]"@, "\"skins\":["@ + skin + "]"@)) by {
        middle_starts_and_ends();
        let front = middle.take(middle.len() - "\"skins\":["@.len());
        assert(middle =~= front + "\"skins\":["@);
        reading::ending_is_held(b + front, "\"skins\":["@, skin, "]"@);
        assert((b + front) + "\"skins\":["@ + skin + "]"@ =~= d + "]"@);
    }
    reading::ending_is_held(d, "]"@, animations, ",\"accessors\":["@);
    reading::ending_is_held(e, ",\"accessors\":["@, accessors, "],\"bufferViews\":["@);
    reading::ending_is_held(f, "],\"bufferViews\":["@, views, "],\"buffers\":[{\"byteLength\":"@);
    reading::ending_is_held(g, "],\"buffers\":[{\"byteLength\":"@, size, "}]}"@);
}

proof fn head_ends()
    ensures
        ({
            let head = "{\"asset\":{\"version\":\"2.0\",\"generator\":\"Cube Bauhaus rig bay\"},\"scene\":0,\"scenes\":[{\"nodes\":["@;
            let label = "\"nodes\":["@;
            label.len() <= head.len() && head.subrange(
                head.len() - label.len(),
                head.len() as int,
            ) == label
        }),
{
    reveal_strlit(
        "{\"asset\":{\"version\":\"2.0\",\"generator\":\"Cube Bauhaus rig bay\"},\"scene\":0,\"scenes\":[{\"nodes\":[",
    );
    reveal_strlit("\"nodes\":[");
    let head = "{\"asset\":{\"version\":\"2.0\",\"generator\":\"Cube Bauhaus rig bay\"},\"scene\":0,\"scenes\":[{\"nodes\":["@;
    let label = "\"nodes\":["@;
    assert(head.subrange(head.len() - label.len(), head.len() as int) =~= label);
}

proof fn middle_starts_and_ends()
    ensures
        ({
            let middle = "],\"meshes\":[{\"primitives\":[{\"attributes\":{\"POSITION\":0,\"NORMAL\":1,\"TEXCOORD_0\":2,\"JOINTS_0\":3,\"WEIGHTS_0\":4},\"indices\":5}]}],\"skins\":["@;
            let (start, end) = ("],\"meshes\":["@, "\"skins\":["@);
            &&& start.len() <= middle.len() && middle.subrange(0, start.len() as int) == start
            &&& end.len() <= middle.len() && middle.subrange(
                middle.len() - end.len(),
                middle.len() as int,
            ) == end
        }),
{
    reveal_strlit(
        "],\"meshes\":[{\"primitives\":[{\"attributes\":{\"POSITION\":0,\"NORMAL\":1,\"TEXCOORD_0\":2,\"JOINTS_0\":3,\"WEIGHTS_0\":4},\"indices\":5}]}],\"skins\":[",
    );
    reveal_strlit("],\"meshes\":[");
    reveal_strlit("\"skins\":[");
    let middle = "],\"meshes\":[{\"primitives\":[{\"attributes\":{\"POSITION\":0,\"NORMAL\":1,\"TEXCOORD_0\":2,\"JOINTS_0\":3,\"WEIGHTS_0\":4},\"indices\":5}]}],\"skins\":["@;
    let (start, end) = ("],\"meshes\":["@, "\"skins\":["@);
    assert(middle.subrange(0, start.len() as int) =~= start);
    assert(middle.subrange(middle.len() - end.len(), middle.len() as int) =~= end);
}

proof fn middle_names_the_attributes()
    ensures
        reading::holds(
            "],\"meshes\":[{\"primitives\":[{\"attributes\":{\"POSITION\":0,\"NORMAL\":1,\"TEXCOORD_0\":2,\"JOINTS_0\":3,\"WEIGHTS_0\":4},\"indices\":5}]}],\"skins\":["@,
            "\"POSITION\":0,\"NORMAL\":1,\"TEXCOORD_0\":2,\"JOINTS_0\":3,\"WEIGHTS_0\":4},\"indices\":5"@,
        ),
{
    reveal_strlit(
        "],\"meshes\":[{\"primitives\":[{\"attributes\":{\"POSITION\":0,\"NORMAL\":1,\"TEXCOORD_0\":2,\"JOINTS_0\":3,\"WEIGHTS_0\":4},\"indices\":5}]}],\"skins\":[",
    );
    reveal_strlit(
        "\"POSITION\":0,\"NORMAL\":1,\"TEXCOORD_0\":2,\"JOINTS_0\":3,\"WEIGHTS_0\":4},\"indices\":5",
    );
    let middle = "],\"meshes\":[{\"primitives\":[{\"attributes\":{\"POSITION\":0,\"NORMAL\":1,\"TEXCOORD_0\":2,\"JOINTS_0\":3,\"WEIGHTS_0\":4},\"indices\":5}]}],\"skins\":["@;
    let part = "\"POSITION\":0,\"NORMAL\":1,\"TEXCOORD_0\":2,\"JOINTS_0\":3,\"WEIGHTS_0\":4},\"indices\":5"@;
    let at = 42int;
    assert(middle.subrange(at, at + part.len()) =~= part);
    assert(reading::stands_at(middle, part, at));
}

/// A bone's transform is taken apart in the file exactly if a channel drives its
/// node.
pub proof fn driven_bones_are_taken_apart(
    skeleton: Skeleton,
    numbers: GlbNumbers,
    channels: Seq<ChannelView>,
    rests: Seq<RestTexts>,
    i: int,
    g: int,
)
    requires
        0 <= i < skeleton.bones@.len(),
    ensures
        0 <= g < channels.len() && channels[g].node == i + 1 ==> glb::node_of(
            skeleton,
            numbers,
            channels,
            rests,
            i + 1,
        ) == glb::node_text(
            skeleton.bones@,
            i,
            glb::transform_text(numbers.matrix_texts@[i]@, Some(rests[i])),
        ),
        (forall|g: int|
            0 <= g < channels.len() ==> (#[trigger] channels[g]).node != i + 1) ==> glb::node_of(
            skeleton,
            numbers,
            channels,
            rests,
            i + 1,
        ) == glb::node_text(
            skeleton.bones@,
            i,
            glb::transform_text(numbers.matrix_texts@[i]@, None),
        ),
{
}

/// Each clip with channels is listed as an animation, in order, and its channels
/// are numbered on from those of the clips before it.
pub proof fn clips_number_their_channels(
    clips: Seq<AnimationClip>,
    bones: nat,
    c: int,
    k: int,
)
    requires
        0 <= c < clips.len(),
        0 <= k < keys::clip_channels(clips[c], bones).len(),
    ensures
        glb::keyed_clips(clips, bones).contains(c),
        ({
            let first = glb::channels_of(clips, bones, c as nat).len();
            glb::all_channels(clips, bones)[first + k] == keys::clip_channels(clips[c], bones)[k]
        }),
        glb::clip_text(clips, bones, c) == glb::animation_text(
            clips[c].name@,
            glb::all_channels(clips, bones),
            glb::channels_of(clips, bones, c as nat).len() as int,
            keys::clip_channels(clips[c], bones).len(),
        ),
{
    let f = glb::channel_lists(clips, bones);
    bytes::flat_holds_each_piece(clips.len(), f, c);
    assert(f(c)[k] == keys::clip_channels(clips[c], bones)[k]);
    crate::listing::listed_iff_satisfied(
        clips.len(),
        |c: int| keys::clip_channels(clips[c], bones).len() > 0,
        c,
    );
}

} // verus!
