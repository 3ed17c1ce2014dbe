//! Binary glTF exporter with skinning.
//!
//! Writes one skinned primitive and a skin whose joints follow the bone order,
//! so a bone index, a joint index and a stored joint number are the same.
//! Vertices without influence are bound rigidly to the first joint. Clips, if
//! any, become animations over the joint nodes.
use vstd::prelude::*;
use vstd::string::StringExecFns;
use crate::anim::AnimationClip;
use crate::bytes;
use crate::import::gltf::{Channel, ChannelOutputs};
use crate::listing;
use crate::mesh::{Influence, RigVertex, SkinnedMesh, VertexInfluences};
use crate::scalar::Scalar;
use crate::skeleton::{Bone, Matrix, Skeleton};
use crate::text;
use super::keys;
use super::keys::{ChannelView, Values};
use super::ExportError;

verus! {

/// First word of the container.
pub const GLB_MAGIC: u32 = 0x4654_6C67;

/// Type of the text chunk.
pub const CHUNK_JSON: u32 = 0x4E4F_534A;

/// Type of the data chunk.
pub const CHUNK_BIN: u32 = 0x004E_4942;

/// Buffer target of vertex attributes.
pub const ARRAY_BUFFER: u32 = 34962;

/// Buffer target of indices.
pub const ELEMENT_ARRAY: u32 = 34963;

/// Deviation of a weight sum from one above which weights are rescaled.
pub const TOTAL_TOLERANCE_BITS: u32 = 0x38D1_B717;

// ── container ─────────────────────────────────────────────────────────────────

/// Bytes filled up to a multiple of four.
#[verifier::opaque]
pub open spec fn padded(b: Seq<u8>, fill: u8) -> Seq<u8> {
    b + Seq::new(((4 - b.len() % 4) % 4) as nat, |i: int| fill)
}

/// A chunk: its length, its type and its bytes.
pub open spec fn chunk(kind: u32, b: Seq<u8>) -> Seq<u8> {
    bytes::le_u32(b.len() as u32) + bytes::le_u32(kind) + b
}

/// The text chunk and the data chunk.
pub open spec fn chunks(text: Seq<u8>, data: Seq<u8>) -> Seq<u8> {
    chunk(CHUNK_JSON, text) + chunk(CHUNK_BIN, data)
}

/// A header that announces the total length, and the two chunks.
#[verifier::opaque]
pub open spec fn assembled(text: Seq<u8>, data: Seq<u8>) -> Seq<u8> {
    bytes::le_u32(GLB_MAGIC) + bytes::le_u32(2) + bytes::le_u32(
        (12 + chunks(text, data).len()) as u32,
    ) + chunks(text, data)
}

/// The whole container: text padded with spaces, data padded with zeros.
pub open spec fn container(json: Seq<u8>, bin: Seq<u8>) -> Seq<u8> {
    assembled(padded(json, 32), padded(bin, 0))
}

fn pad(b: &mut Vec<u8>, fill: u8)
    ensures
        final(b)@ == padded(old(b)@, fill),
{
    let ghost start = b@;
    while b.len() % 4 != 0
        invariant
            start.len() <= b@.len() < start.len() + 4 || b@ == start,
            b@.len() <= start.len() + (4 - start.len() % 4) % 4,
            b@ == start + Seq::new((b@.len() - start.len()) as nat, |i: int| fill),
        decreases start.len() + 4 - b@.len(),
    {
        let ghost before = b@;
        b.push(fill);
        assert(b@ =~= start + Seq::new((b@.len() - start.len()) as nat, |i: int| fill));
    }
    proof {
        reveal(padded);
    }
    assert(b@ =~= padded(start, fill));
}

/// Wrap text and data chunks into the container.
pub fn assemble_glb(json: Vec<u8>, bin: Vec<u8>) -> (out: Vec<u8>)
    ensures
        out@ == container(json@, bin@),
{
    let mut text = json;
    let mut data = bin;
    pad(&mut text, 32);
    pad(&mut data, 0);
    let mut body: Vec<u8> = Vec::new();
    bytes::push_u32(&mut body, text.len() as u32);
    bytes::push_u32(&mut body, CHUNK_JSON);
    bytes::push_all(&mut body, &text);
    bytes::push_u32(&mut body, data.len() as u32);
    bytes::push_u32(&mut body, CHUNK_BIN);
    bytes::push_all(&mut body, &data);
    assert(body@ =~= chunks(text@, data@));
    let total: u32 = ((body.len() as u128) + 12) as u32;
    let mut out: Vec<u8> = Vec::new();
    bytes::push_u32(&mut out, GLB_MAGIC);
    bytes::push_u32(&mut out, 2);
    bytes::push_u32(&mut out, total);
    bytes::push_all(&mut out, &body);
    proof {
        reveal(assembled);
        assert(out@ =~= assembled(text@, data@));
    }
    out
}

proof fn parts_in_place(
    a: Seq<u8>,
    b: Seq<u8>,
    c: Seq<u8>,
    d: Seq<u8>,
    e: Seq<u8>,
    t: Seq<u8>,
    f: Seq<u8>,
    g: Seq<u8>,
    h: Seq<u8>,
)
    requires
        a.len() == 4 && b.len() == 4 && c.len() == 4 && d.len() == 4,
        e.len() == 4 && f.len() == 4 && g.len() == 4,
    ensures
        ({
            let out = a + b + c + ((d + e + t) + (f + g + h));
            let n = t.len() as int;
            &&& out.len() == 28 + n + h.len()
            &&& out.subrange(0, 4) == a
            &&& out.subrange(4, 8) == b
            &&& out.subrange(8, 12) == c
            &&& out.subrange(12, 16) == d
            &&& out.subrange(16, 20) == e
            &&& out.subrange(20, 20 + n) == t
            &&& out.subrange(20 + n, 24 + n) == f
            &&& out.subrange(24 + n, 28 + n) == g
            &&& out.subrange(28 + n, out.len() as int) == h
        }),
{
    let out = a + b + c + ((d + e + t) + (f + g + h));
    let n = t.len() as int;
    assert(out.subrange(0, 4) =~= a);
    assert(out.subrange(4, 8) =~= b);
    assert(out.subrange(8, 12) =~= c);
    assert(out.subrange(12, 16) =~= d);
    assert(out.subrange(16, 20) =~= e);
    assert(out.subrange(20, 20 + n) =~= t);
    assert(out.subrange(20 + n, 24 + n) =~= f);
    assert(out.subrange(24 + n, 28 + n) =~= g);
    assert(out.subrange(28 + n, out.len() as int) =~= h);
}

proof fn padded_facts(b: Seq<u8>, fill: u8)
    ensures
        padded(b, fill).len() % 4 == 0,
        padded(b, fill).len() >= b.len(),
        padded(b, fill).take(b.len() as int) == b,
{
    reveal(padded);
    assert(padded(b, fill).take(b.len() as int) =~= b);
}

proof fn words_read_back(out: Seq<u8>, n: int, total: u32, text_len: u32, data_len: u32)
    requires
        n >= 0,
        out.len() >= 28 + n,
        out.subrange(0, 4) == bytes::le_u32(GLB_MAGIC),
        out.subrange(4, 8) == bytes::le_u32(2),
        out.subrange(8, 12) == bytes::le_u32(total),
        out.subrange(12, 16) == bytes::le_u32(text_len),
        out.subrange(16, 20) == bytes::le_u32(CHUNK_JSON),
        out.subrange(20 + n, 24 + n) == bytes::le_u32(data_len),
        out.subrange(24 + n, 28 + n) == bytes::le_u32(CHUNK_BIN),
    ensures
        bytes::read_u32(out, 0) == GLB_MAGIC,
        bytes::read_u32(out, 4) == 2,
        bytes::read_u32(out, 8) == total,
        bytes::read_u32(out, 12) == text_len,
        bytes::read_u32(out, 16) == CHUNK_JSON,
        bytes::read_u32(out, 20 + n) == data_len,
        bytes::read_u32(out, 24 + n) == CHUNK_BIN,
{
    bytes::read_back_u32(out, 0, GLB_MAGIC);
    bytes::read_back_u32(out, 4, 2);
    bytes::read_back_u32(out, 8, total);
    bytes::read_back_u32(out, 12, text_len);
    bytes::read_back_u32(out, 16, CHUNK_JSON);
    bytes::read_back_u32(out, 20 + n, data_len);
    bytes::read_back_u32(out, 24 + n, CHUNK_BIN);
}

/// What a reader finds in a container: header, chunk lengths and chunk
/// contents, all aligned to four bytes.
pub open spec fn reads_as(out: Seq<u8>, json: Seq<u8>, bin: Seq<u8>) -> bool {
    let text = padded(json, 32);
    let data = padded(bin, 0);
    let n = text.len() as int;
    &&& out.len() % 4 == 0
    &&& bytes::read_u32(out, 0) == GLB_MAGIC
    &&& bytes::read_u32(out, 4) == 2
    &&& bytes::read_u32(out, 8) == out.len()
    &&& bytes::read_u32(out, 12) == n
    &&& bytes::read_u32(out, 16) == CHUNK_JSON
    &&& out.subrange(20, 20 + n) == text
    &&& text.take(json.len() as int) == json
    &&& bytes::read_u32(out, 20 + n) == data.len()
    &&& bytes::read_u32(out, 24 + n) == CHUNK_BIN
    &&& out.subrange(28 + n, out.len() as int) == data
    &&& data.take(bin.len() as int) == bin
}

proof fn assembled_reads_back(text: Seq<u8>, data: Seq<u8>)
    requires
        assembled(text, data).len() <= u32::MAX,
        text.len() % 4 == 0,
        data.len() % 4 == 0,
    ensures
        ({
            let n = text.len() as int;
            let out = assembled(text, data);
            &&& out.len() % 4 == 0
            &&& out.len() == 28 + n + data.len()
            &&& bytes::read_u32(out, 0) == GLB_MAGIC
            &&& bytes::read_u32(out, 4) == 2
            &&& bytes::read_u32(out, 8) == out.len()
            &&& bytes::read_u32(out, 12) == n
            &&& bytes::read_u32(out, 16) == CHUNK_JSON
            &&& out.subrange(20, 20 + n) == text
            &&& bytes::read_u32(out, 20 + n) == data.len()
            &&& bytes::read_u32(out, 24 + n) == CHUNK_BIN
            &&& out.subrange(28 + n, out.len() as int) == data
        }),
{
    reveal(assembled);
    let total = (12 + chunks(text, data).len()) as u32;
    let text_len = text.len() as u32;
    let data_len = data.len() as u32;
    bytes::le_u32_len(GLB_MAGIC);
    bytes::le_u32_len(2);
    bytes::le_u32_len(total);
    bytes::le_u32_len(text_len);
    bytes::le_u32_len(CHUNK_JSON);
    bytes::le_u32_len(data_len);
    bytes::le_u32_len(CHUNK_BIN);
    assert(chunks(text, data).len() == 16 + text.len() + data.len());
    parts_in_place(
        bytes::le_u32(GLB_MAGIC),
        bytes::le_u32(2),
        bytes::le_u32(total),
        bytes::le_u32(text_len),
        bytes::le_u32(CHUNK_JSON),
        text,
        bytes::le_u32(data_len),
        bytes::le_u32(CHUNK_BIN),
        data,
    );
    words_read_back(assembled(text, data), text.len() as int, total, text_len, data_len);
    let (x, y) = (text.len() as int, data.len() as int);
    assert((28 + x + y) % 4 == 0) by (nonlinear_arith)
        requires
            x % 4 == 0,
            y % 4 == 0,
    ;
}

/// A container reads back as what was put into it.
pub proof fn container_reads_back(json: Seq<u8>, bin: Seq<u8>)
    requires
        container(json, bin).len() <= u32::MAX,
    ensures
        reads_as(container(json, bin), json, bin),
{
    padded_facts(json, 32);
    padded_facts(bin, 0);
    assembled_reads_back(padded(json, 32), padded(bin, 0));
}

// ── influences ────────────────────────────────────────────────────────────────

/// What summing the weights of a vertex gives.
#[derive(Clone, Copy, Debug, PartialEq, Eq)]
pub struct WeightTotal {
    /// Sum of the weights above zero, in slot order.
    pub total: Scalar,
    /// Distance of the sum from one.
    pub deviation: Scalar,
    /// Each weight above zero divided by the sum.
    pub scaled: [Scalar; 4],
}

/// Joint numbers and weights of a vertex as the file stores them.
#[derive(Clone, Copy, Debug, PartialEq, Eq)]
pub struct PackedInfluences {
    pub joints: [u16; 4],
    pub weights: [Scalar; 4],
}

/// The joint numbers stored for a vertex: the bones of the slots that carry
/// weight, zero elsewhere, and all zero for a vertex without weight.
pub open spec fn packed_joints(set: Seq<Influence>, sum: WeightTotal) -> Seq<u16> {
    Seq::new(
        4,
        |k: int|
            if set[k].weighted() && !sum.total.spec_le(Scalar::zero()) {
                set[k].bone
            } else {
                0
            },
    )
}

/// The weights stored for a vertex: the weights above zero, rescaled where
/// their sum is off; a vertex without weight gets full weight in the first
/// slot.
pub open spec fn packed_weights(set: Seq<Influence>, sum: WeightTotal) -> Seq<Scalar> {
    Seq::new(
        4,
        |k: int|
            if sum.total.spec_le(Scalar::zero()) {
                if k == 0 {
                    Scalar::one()
                } else {
                    Scalar::zero()
                }
            } else if (Scalar { bits: TOTAL_TOLERANCE_BITS }).spec_lt(sum.deviation) {
                sum.scaled@[k]
            } else if set[k].weighted() {
                set[k].weight
            } else {
                Scalar::zero()
            },
    )
}

/// Pack the influences of a vertex, falling back to a rigid bind to the first
/// joint for a vertex without weight.
pub fn packed_influences(set: &VertexInfluences, sum: &WeightTotal) -> (r: PackedInfluences)
    ensures
        r.joints@ == packed_joints(set@, *sum),
        r.weights@ == packed_weights(set@, *sum),
{
    let z = Scalar::zero();
    let mut joints: [u16; 4] = [0, 0, 0, 0];
    let mut weights: [Scalar; 4] = [z, z, z, z];
    let mut k: usize = 0;
    while k < 4
        invariant
            k <= 4,
            z == Scalar::zero(),
            set@.len() == 4,
            joints@.len() == 4,
            weights@.len() == 4,
            forall|j: int|
                0 <= j < 4 ==> #[trigger] joints@[j] == (if j < k && set@[j].weighted() {
                    set@[j].bone
                } else {
                    0
                }),
            forall|j: int|
                0 <= j < 4 ==> #[trigger] weights@[j] == (if j < k && set@[j].weighted() {
                    set@[j].weight
                } else {
                    Scalar::zero()
                }),
        decreases 4 - k,
    {
        if set[k].weight.is_positive() {
            joints[k] = set[k].bone;
            weights[k] = set[k].weight;
        }
        k += 1;
    }
    if sum.total.at_most(Scalar::zero()) {
        joints = [0, 0, 0, 0];
        weights = [Scalar::one(), z, z, z];
    } else if Scalar::from_bits(TOTAL_TOLERANCE_BITS).less(sum.deviation) {
        weights = sum.scaled;
    }
    assert(joints@ =~= packed_joints(set@, *sum));
    assert(weights@ =~= packed_weights(set@, *sum));
    PackedInfluences { joints, weights }
}

// ── buffer views ──────────────────────────────────────────────────────────────

/// A stretch of the data buffer.
#[derive(Clone, Copy, Debug, PartialEq, Eq)]
pub struct BufferView {
    pub offset: usize,
    pub length: usize,
    pub target: Option<u32>,
}

/// What goes into one buffer view.
pub ghost struct Section {
    pub target: Option<u32>,
    pub data: Seq<u8>,
}

/// The data buffer of the first `n` sections, each starting at a multiple of
/// four.
pub open spec fn buffer_of(sections: Seq<Section>, n: nat) -> Seq<u8>
    decreases n,
{
    if n == 0 {
        Seq::empty()
    } else {
        padded(buffer_of(sections, (n - 1) as nat), 0) + sections[n - 1].data
    }
}

/// Where section `k` starts.
pub open spec fn offset_of(sections: Seq<Section>, k: int) -> nat {
    padded(buffer_of(sections, k as nat), 0).len()
}

/// Whether a view records section `k`.
pub open spec fn records(view: BufferView, sections: Seq<Section>, k: int) -> bool {
    &&& view.offset == offset_of(sections, k)
    &&& view.length == sections[k].data.len()
    &&& view.target == sections[k].target
}

/// Append an aligned section, record its view and return the view's number.
pub fn push_view(
    bin: &mut Vec<u8>,
    views: &mut Vec<BufferView>,
    target: Option<u32>,
    data: &Vec<u8>,
) -> (index: usize)
    ensures
        index == old(views)@.len(),
        final(bin)@ == padded(old(bin)@, 0) + data@,
        final(views)@.len() == old(views)@.len() + 1,
        final(views)@.drop_last() == old(views)@,
        final(views)@.last().offset == padded(old(bin)@, 0).len(),
        final(views)@.last().length == data@.len(),
        final(views)@.last().target == target,
{
    pad(bin, 0);
    let offset: usize = bin.len();
    bytes::push_all(bin, data);
    let length: usize = data.len();
    views.push(BufferView { offset, length, target });
    assert(views@.drop_last() =~= old(views)@);
    views.len() - 1
}

proof fn buffer_prefix(sections: Seq<Section>, m: nat, n: nat)
    requires
        m <= n <= sections.len(),
    ensures
        buffer_of(sections, m).len() <= buffer_of(sections, n).len(),
        buffer_of(sections, n).take(buffer_of(sections, m).len() as int) == buffer_of(sections, m),
    decreases n,
{
    if m < n {
        buffer_prefix(sections, m, (n - 1) as nat);
        reveal(padded);
        let a = buffer_of(sections, m);
        let b = buffer_of(sections, (n - 1) as nat);
        let c = buffer_of(sections, n);
        assert(c.take(b.len() as int) =~= b);
        assert(c.take(a.len() as int) =~= b.take(a.len() as int));
    } else {
        assert(buffer_of(sections, n).take(buffer_of(sections, m).len() as int) =~= buffer_of(
            sections,
            m,
        ));
    }
}

/// Every view is aligned, lies inside the buffer, holds its section's bytes,
/// and ends before the next one starts.
pub proof fn views_are_aligned_and_disjoint(sections: Seq<Section>, k: int)
    requires
        0 <= k < sections.len(),
    ensures
        offset_of(sections, k) % 4 == 0,
        offset_of(sections, k) + sections[k].data.len() <= buffer_of(sections, sections.len()).len(),
        buffer_of(sections, sections.len()).subrange(
            offset_of(sections, k) as int,
            (offset_of(sections, k) + sections[k].data.len()) as int,
        ) == sections[k].data,
        k + 1 < sections.len() ==> offset_of(sections, k) + sections[k].data.len() <= offset_of(
            sections,
            k + 1,
        ),
{
    let whole = buffer_of(sections, sections.len());
    let upto = buffer_of(sections, (k + 1) as nat);
    let at = offset_of(sections, k) as int;
    buffer_prefix(sections, (k + 1) as nat, sections.len());
    padded_facts(buffer_of(sections, k as nat), 0);
    padded_facts(buffer_of(sections, (k + 1) as nat), 0);
    assert(upto.subrange(at, upto.len() as int) =~= sections[k].data);
    assert(whole.subrange(at, upto.len() as int) =~= whole.take(upto.len() as int).subrange(
        at,
        upto.len() as int,
    ));
}

// ── document text ─────────────────────────────────────────────────────────────

/// A character inside a quoted text: quotes and backslashes are escaped.
pub open spec fn escaped(c: char) -> Seq<char> {
    if c == '"' {
        seq!['\\', '"']
    } else if c == '\\' {
        seq!['\\', '\\']
    } else {
        seq![c]
    }
}

/// A text in quotes, with quotes and backslashes escaped.
pub open spec fn quoted(s: Seq<char>) -> Seq<char> {
    seq!['"'] + bytes::flat(s.len(), |i: int| escaped(s[i])) + seq!['"']
}

/// Quote a text, escaping quotes and backslashes.
pub fn json_string(s: &str) -> (r: String)
    ensures
        r@ == quoted(s@),
{
    let ghost f = |i: int| escaped(s@[i]);
    let chars = text::chars_of(s);
    let mut r = String::new();
    r.push('"');
    let mut i: usize = 0;
    assert(r@ =~= seq!['"'] + bytes::flat(0, f));
    while i < chars.len()
        invariant
            i <= chars.len(),
            chars@ == s@,
            f == (|i: int| escaped(s@[i])),
            r@ == seq!['"'] + bytes::flat(i as nat, f),
        decreases chars.len() - i,
    {
        let c = chars[i];
        let ghost before = r@;
        let ghost piece = f(i as int);
        if c == '"' || c == '\\' {
            r.push('\\');
        }
        r.push(c);
        assert(r@ =~= before + escaped(c));
        assert(r@ =~= seq!['"'] + bytes::flat((i + 1) as nat, f));
        i += 1;
    }
    r.push('"');
    assert(r@ =~= quoted(s@));
    r
}

/// An accessor over a buffer view.
pub open spec fn accessor_text(
    view: nat,
    component: nat,
    count: nat,
    shape: Seq<char>,
    extra: Seq<char>,
) -> Seq<char> {
    "{\"bufferView\":"@ + text::decimal(view) + ",\"componentType\":"@ + text::decimal(component)
        + ",\"count\":"@ + text::decimal(count) + ",\"type\":\""@ + shape + "\""@ + extra + "}"@
}

fn accessor(view: usize, component: u64, count: usize, shape: &str, extra: &str) -> (r: String)
    ensures
        r@ == accessor_text(view as nat, component as nat, count as nat, shape@, extra@),
{
    let mut r = "{\"bufferView\":".to_owned();
    text::push_decimal(&mut r, view as u64);
    r.append(",\"componentType\":");
    text::push_decimal(&mut r, component);
    r.append(",\"count\":");
    text::push_decimal(&mut r, count as u64);
    r.append(",\"type\":\"");
    r.append(shape);
    r.append("\"");
    r.append(extra);
    r.append("}");
    r
}

/// The bounds of the positions, as the position accessor carries them.
pub open spec fn bounds_text(min: Seq<String>, max: Seq<String>) -> Seq<char> {
    ",\"min\":["@ + min[0]@ + ","@ + min[1]@ + ","@ + min[2]@ + "],\"max\":["@ + max[0]@ + ","@
        + max[1]@ + ","@ + max[2]@ + "]"@
}

fn bounds_field(min: &[String; 3], max: &[String; 3]) -> (r: String)
    ensures
        r@ == bounds_text(min@, max@),
{
    let mut r = ",\"min\":[".to_owned();
    r.append(min[0].as_str());
    r.append(",");
    r.append(min[1].as_str());
    r.append(",");
    r.append(min[2].as_str());
    r.append("],\"max\":[");
    r.append(max[0].as_str());
    r.append(",");
    r.append(max[1].as_str());
    r.append(",");
    r.append(max[2].as_str());
    r.append("]");
    r
}

/// The node numbers of some bones: bone `i` is node `i + 1`.
pub open spec fn node_numbers(bones: Seq<int>) -> Seq<char> {
    bytes::joined(bones.len(), ","@, |k: int| text::decimal((bones[k] + 1) as nat))
}

fn join_nodes(bones: &Vec<usize>) -> (r: String)
    requires
        forall|k: int| 0 <= k < bones@.len() ==> #[trigger] bones@[k] < usize::MAX,
    ensures
        r@ == node_numbers(bones@.map_values(|b: usize| b as int)),
{
    let ghost list = bones@.map_values(|b: usize| b as int);
    let ghost f = |k: int| text::decimal((list[k] + 1) as nat);
    let mut r = String::new();
    let mut k: usize = 0;
    while k < bones.len()
        invariant
            k <= bones.len(),
            forall|k: int| 0 <= k < bones@.len() ==> #[trigger] bones@[k] < usize::MAX,
            list == bones@.map_values(|b: usize| b as int),
            f == (|k: int| text::decimal((list[k] + 1) as nat)),
            r@ == bytes::joined(k as nat, ","@, f),
        decreases bones.len() - k,
    {
        let ghost piece = f(k as int);
        assert(bones@[k as int] < usize::MAX);
        let number: u64 = (bones[k] + 1) as u64;
        if k > 0 {
            r.append(",");
        }
        text::push_decimal(&mut r, number);
        if k == 0 {
            assert(r@ =~= bytes::joined(1, ","@, f));
        }
        k += 1;
    }
    r
}

/// The children of bone `i`.
pub open spec fn children_of(bones: Seq<Bone>, i: int) -> Seq<int> {
    listing::indices_where(bones.len(), |j: int| bones[j].parent == Some(i as usize))
}

/// The bones without a parent.
pub open spec fn roots_of(bones: Seq<Bone>) -> Seq<int> {
    listing::indices_where(bones.len(), |j: int| bones[j].parent is None)
}

/// The field that lists a node's children, if it has any.
pub open spec fn children_text(children: Seq<int>) -> Seq<char> {
    if children.len() == 0 {
        Seq::empty()
    } else {
        ",\"children\":["@ + node_numbers(children) + "]"@
    }
}

/// Decimal texts of a bone's local bind, taken apart.
#[derive(Clone, Debug)]
pub struct RestTexts {
    pub translation: Vec<String>,
    pub rotation: Vec<String>,
    pub scale: Vec<String>,
}

/// Texts with commas between them.
pub open spec fn comma_list(list: Seq<String>) -> Seq<char> {
    bytes::joined(list.len(), ","@, |k: int| list[k]@)
}

/// The transform of a node: a matrix, or its parts where keys drive the node.
pub open spec fn transform_text(matrix: Seq<String>, rest: Option<RestTexts>) -> Seq<char> {
    match rest {
        None => "\"matrix\":["@ + comma_list(matrix) + "]"@,
        Some(r) => "\"translation\":["@ + comma_list(r.translation@) + "],\"rotation\":["@
            + comma_list(r.rotation@) + "],\"scale\":["@ + comma_list(r.scale@) + "]"@,
    }
}

/// The node of bone `i`.
pub open spec fn node_text(bones: Seq<Bone>, i: int, transform: Seq<char>) -> Seq<char> {
    "{\"name\":"@ + quoted(bones[i].name@) + ","@ + transform + children_text(
        children_of(bones, i),
    ) + "}"@
}

fn transform_field(matrix: &Vec<String>, rest: Option<&RestTexts>) -> (r: String)
    ensures
        r@ == transform_text(
            matrix@,
            match rest {
                Some(t) => Some(*t),
                None => None,
            },
        ),
{
    match rest {
        None => {
            let mut r = "\"matrix\":[".to_owned();
            r.append(bytes::join_texts(matrix).as_str());
            r.append("]");
            r
        },
        Some(t) => {
            let mut r = "\"translation\":[".to_owned();
            r.append(bytes::join_texts(&t.translation).as_str());
            r.append("],\"rotation\":[");
            r.append(bytes::join_texts(&t.rotation).as_str());
            r.append("],\"scale\":[");
            r.append(bytes::join_texts(&t.scale).as_str());
            r.append("]");
            r
        },
    }
}

proof fn as_usize_back(n: nat, p: spec_fn(int) -> bool)
    requires
        n <= usize::MAX,
    ensures
        listing::as_usize(listing::indices_where(n, p)).map_values(|b: usize| b as int)
            == listing::indices_where(n, p),
        forall|k: int|
            0 <= k < listing::as_usize(listing::indices_where(n, p)).len()
                ==> #[trigger] listing::as_usize(listing::indices_where(n, p))[k] < n,
{
    listing::listed_ascending(n, p);
    assert(listing::as_usize(listing::indices_where(n, p)).map_values(|b: usize| b as int)
        =~= listing::indices_where(n, p));
}

fn bone_node(skeleton: &Skeleton, i: usize, transform: &str) -> (r: String)
    requires
        i < skeleton.bones@.len(),
    ensures
        r@ == node_text(skeleton.bones@, i as int, transform@),
{
    let children = skeleton.children(i);
    proof {
        let n = skeleton.bones.len();
        as_usize_back(n as nat, |j: int| skeleton.bones@[j].parent == Some(i));
        assert(children@.map_values(|b: usize| b as int) == children_of(skeleton.bones@, i as int));
    }
    let mut r = "{\"name\":".to_owned();
    r.append(json_string(skeleton.bones[i].name.as_str()).as_str());
    r.append(",");
    r.append(transform);
    if children.len() > 0 {
        let mut field = ",\"children\":[".to_owned();
        field.append(join_nodes(&children).as_str());
        field.append("]");
        r.append(field.as_str());
    } else {
        assert(r@ =~= r@ + children_text(children_of(skeleton.bones@, i as int)));
    }
    r.append("}");
    r
}

// ── data sections ─────────────────────────────────────────────────────────────

/// Numbers as four bytes each.
pub open spec fn scalar_bytes(values: Seq<Scalar>) -> Seq<u8> {
    bytes::flat(values.len(), |k: int| bytes::le_u32(values[k].bits))
}

/// Joint numbers as two bytes each.
pub open spec fn joint_bytes(joints: Seq<u16>) -> Seq<u8> {
    bytes::flat(joints.len(), |k: int| bytes::le_u16(joints[k]))
}

/// All positions.
pub open spec fn position_bytes(vertices: Seq<RigVertex>) -> Seq<u8> {
    bytes::flat(vertices.len(), |i: int| scalar_bytes(vertices[i].position@))
}

/// All normals.
pub open spec fn normal_bytes(vertices: Seq<RigVertex>) -> Seq<u8> {
    bytes::flat(vertices.len(), |i: int| scalar_bytes(vertices[i].normal@))
}

/// All texture coordinates.
pub open spec fn uv_bytes(vertices: Seq<RigVertex>) -> Seq<u8> {
    bytes::flat(vertices.len(), |i: int| scalar_bytes(vertices[i].uv@))
}

/// The joint numbers of all vertices.
pub open spec fn all_joint_bytes(sets: Seq<VertexInfluences>, sums: Seq<WeightTotal>) -> Seq<u8> {
    bytes::flat(sets.len(), |i: int| joint_bytes(packed_joints(sets[i]@, sums[i])))
}

/// The weights of all vertices.
pub open spec fn all_weight_bytes(sets: Seq<VertexInfluences>, sums: Seq<WeightTotal>) -> Seq<u8> {
    bytes::flat(sets.len(), |i: int| scalar_bytes(packed_weights(sets[i]@, sums[i])))
}

/// All indices.
pub open spec fn index_bytes(indices: Seq<u32>) -> Seq<u8> {
    bytes::flat(indices.len(), |i: int| bytes::le_u32(indices[i]))
}

/// All inverse bind matrices.
pub open spec fn matrix_bytes(matrices: Seq<Matrix>) -> Seq<u8> {
    bytes::flat(matrices.len(), |i: int| scalar_bytes(matrices[i]@))
}

fn push_scalars(b: &mut Vec<u8>, values: &[Scalar])
    ensures
        final(b)@ == old(b)@ + scalar_bytes(values@),
{
    let ghost f = |k: int| bytes::le_u32(values@[k].bits);
    let mut k: usize = 0;
    assert(b@ =~= old(b)@ + bytes::flat(0, f));
    while k < values.len()
        invariant
            k <= values.len(),
            f == (|k: int| bytes::le_u32(values@[k].bits)),
            b@ == old(b)@ + bytes::flat(k as nat, f),
        decreases values.len() - k,
    {
        let ghost piece = f(k as int);
        bytes::push_u32(b, values[k].bits);
        assert(b@ =~= old(b)@ + bytes::flat((k + 1) as nat, f));
        k += 1;
    }
}

fn push_joints(b: &mut Vec<u8>, joints: &[u16])
    ensures
        final(b)@ == old(b)@ + joint_bytes(joints@),
{
    let ghost f = |k: int| bytes::le_u16(joints@[k]);
    let mut k: usize = 0;
    assert(b@ =~= old(b)@ + bytes::flat(0, f));
    while k < joints.len()
        invariant
            k <= joints.len(),
            f == (|k: int| bytes::le_u16(joints@[k])),
            b@ == old(b)@ + bytes::flat(k as nat, f),
        decreases joints.len() - k,
    {
        let ghost piece = f(k as int);
        bytes::push_u16(b, joints[k]);
        assert(b@ =~= old(b)@ + bytes::flat((k + 1) as nat, f));
        k += 1;
    }
}

fn position_section(vertices: &Vec<RigVertex>) -> (b: Vec<u8>)
    ensures
        b@ == position_bytes(vertices@),
{
    let ghost f = |i: int| scalar_bytes(vertices@[i].position@);
    let mut b: Vec<u8> = Vec::new();
    let mut i: usize = 0;
    while i < vertices.len()
        invariant
            i <= vertices.len(),
            f == (|i: int| scalar_bytes(vertices@[i].position@)),
            b@ == bytes::flat(i as nat, f),
        decreases vertices.len() - i,
    {
        let ghost piece = f(i as int);
        push_scalars(&mut b, &vertices[i].position);
        i += 1;
    }
    b
}

fn normal_section(vertices: &Vec<RigVertex>) -> (b: Vec<u8>)
    ensures
        b@ == normal_bytes(vertices@),
{
    let ghost f = |i: int| scalar_bytes(vertices@[i].normal@);
    let mut b: Vec<u8> = Vec::new();
    let mut i: usize = 0;
    while i < vertices.len()
        invariant
            i <= vertices.len(),
            f == (|i: int| scalar_bytes(vertices@[i].normal@)),
            b@ == bytes::flat(i as nat, f),
        decreases vertices.len() - i,
    {
        let ghost piece = f(i as int);
        push_scalars(&mut b, &vertices[i].normal);
        i += 1;
    }
    b
}

fn uv_section(vertices: &Vec<RigVertex>) -> (b: Vec<u8>)
    ensures
        b@ == uv_bytes(vertices@),
{
    let ghost f = |i: int| scalar_bytes(vertices@[i].uv@);
    let mut b: Vec<u8> = Vec::new();
    let mut i: usize = 0;
    while i < vertices.len()
        invariant
            i <= vertices.len(),
            f == (|i: int| scalar_bytes(vertices@[i].uv@)),
            b@ == bytes::flat(i as nat, f),
        decreases vertices.len() - i,
    {
        let ghost piece = f(i as int);
        push_scalars(&mut b, &vertices[i].uv);
        i += 1;
    }
    b
}

fn influence_sections(sets: &Vec<VertexInfluences>, sums: &Vec<WeightTotal>) -> (r: (
    Vec<u8>,
    Vec<u8>,
))
    requires
        sets@.len() == sums@.len(),
    ensures
        r.0@ == all_joint_bytes(sets@, sums@),
        r.1@ == all_weight_bytes(sets@, sums@),
{
    let ghost f = |i: int| joint_bytes(packed_joints(sets@[i]@, sums@[i]));
    let ghost g = |i: int| scalar_bytes(packed_weights(sets@[i]@, sums@[i]));
    let mut joints: Vec<u8> = Vec::new();
    let mut weights: Vec<u8> = Vec::new();
    let mut i: usize = 0;
    while i < sets.len()
        invariant
            i <= sets.len(),
            sets@.len() == sums@.len(),
            f == (|i: int| joint_bytes(packed_joints(sets@[i]@, sums@[i]))),
            g == (|i: int| scalar_bytes(packed_weights(sets@[i]@, sums@[i]))),
            joints@ == bytes::flat(i as nat, f),
            weights@ == bytes::flat(i as nat, g),
        decreases sets.len() - i,
    {
        let ghost piece = (f(i as int), g(i as int));
        let packed = packed_influences(&sets[i], &sums[i]);
        push_joints(&mut joints, &packed.joints);
        push_scalars(&mut weights, &packed.weights);
        i += 1;
    }
    (joints, weights)
}

fn index_section(indices: &Vec<u32>) -> (b: Vec<u8>)
    ensures
        b@ == index_bytes(indices@),
{
    let ghost f = |i: int| bytes::le_u32(indices@[i]);
    let mut b: Vec<u8> = Vec::new();
    let mut i: usize = 0;
    while i < indices.len()
        invariant
            i <= indices.len(),
            f == (|i: int| bytes::le_u32(indices@[i])),
            b@ == bytes::flat(i as nat, f),
        decreases indices.len() - i,
    {
        let ghost piece = f(i as int);
        bytes::push_u32(&mut b, indices[i]);
        i += 1;
    }
    b
}

fn matrix_section(matrices: &Vec<Matrix>) -> (b: Vec<u8>)
    ensures
        b@ == matrix_bytes(matrices@),
{
    let ghost f = |i: int| scalar_bytes(matrices@[i]@);
    let mut b: Vec<u8> = Vec::new();
    let mut i: usize = 0;
    while i < matrices.len()
        invariant
            i <= matrices.len(),
            f == (|i: int| scalar_bytes(matrices@[i]@)),
            b@ == bytes::flat(i as nat, f),
        decreases matrices.len() - i,
    {
        let ghost piece = f(i as int);
        push_scalars(&mut b, &matrices[i]);
        i += 1;
    }
    b
}

// ── keys ──────────────────────────────────────────────────────────────────────

/// The channels of each clip.
pub open spec fn channel_lists(clips: Seq<AnimationClip>, bones: nat) -> spec_fn(int) -> Seq<
    ChannelView,
> {
    |c: int| keys::clip_channels(clips[c], bones)
}

/// The channels of the first `n` clips, one clip after the other.
pub open spec fn channels_of(clips: Seq<AnimationClip>, bones: nat, n: nat) -> Seq<ChannelView> {
    bytes::flat(n, channel_lists(clips, bones))
}

/// The channels of all clips.
pub open spec fn all_channels(clips: Seq<AnimationClip>, bones: nat) -> Seq<ChannelView> {
    channels_of(clips, bones, clips.len())
}

/// Whether keys drive bone `i`.
pub open spec fn is_keyed(channels: Seq<ChannelView>, i: int) -> bool {
    exists|g: int| 0 <= g < channels.len() && (#[trigger] channels[g]).node == i + 1
}

/// The number of values of a channel.
pub open spec fn value_count(values: Values) -> nat {
    match values {
        Values::Translations(v) => v.len(),
        Values::Rotations(v) => v.len(),
        Values::Scales(v) => v.len(),
        Values::Other => 0,
    }
}

/// The values of a channel, one after the other.
pub open spec fn value_bytes(values: Values) -> Seq<u8> {
    match values {
        Values::Translations(v) => bytes::flat(v.len(), |i: int| scalar_bytes(v[i]@)),
        Values::Rotations(v) => bytes::flat(v.len(), |i: int| scalar_bytes(v[i]@)),
        Values::Scales(v) => bytes::flat(v.len(), |i: int| scalar_bytes(v[i]@)),
        Values::Other => Seq::empty(),
    }
}

/// The property that a channel drives.
pub open spec fn path_text(values: Values) -> Seq<char> {
    match values {
        Values::Translations(_) => "translation"@,
        Values::Rotations(_) => "rotation"@,
        Values::Scales(_) => "scale"@,
        Values::Other => "weights"@,
    }
}

/// The shape of the values of a channel.
pub open spec fn shape_text(values: Values) -> Seq<char> {
    match values {
        Values::Rotations(_) => "VEC4"@,
        _ => "VEC3"@,
    }
}

/// The data sections of the channels: for each its times, then its values.
pub open spec fn key_sections(channels: Seq<ChannelView>) -> Seq<Section> {
    Seq::new(
        2 * channels.len(),
        |k: int|
            Section {
                target: None,
                data: if k % 2 == 0 {
                    scalar_bytes(channels[k / 2].times)
                } else {
                    value_bytes(channels[k / 2].values)
                },
            },
    )
}

/// The earliest and the latest time of a channel, as its times carry them.
pub open spec fn span_text(span: Seq<String>) -> Seq<char> {
    ",\"min\":["@ + span[0]@ + "],\"max\":["@ + span[1]@ + "]"@
}

/// The accessor of the times of channel `g`, or of its values.
pub open spec fn key_accessor(channels: Seq<ChannelView>, spans: Seq<[String; 2]>, k: int) -> Seq<char> {
    let c = channels[k / 2];
    if k % 2 == 0 {
        accessor_text((7 + k) as nat, 5126, c.times.len(), "SCALAR"@, span_text(spans[k / 2]@))
    } else {
        accessor_text((7 + k) as nat, 5126, value_count(c.values), shape_text(c.values), ""@)
    }
}

/// Channel `k` of an animation whose channels start at number `first`.
pub open spec fn channel_text(channels: Seq<ChannelView>, first: int, k: int) -> Seq<char> {
    "{\"sampler\":"@ + text::decimal(k as nat) + ",\"target\":{\"node\":"@ + text::decimal(
        channels[first + k].node as nat,
    ) + ",\"path\":\""@ + path_text(channels[first + k].values) + "\"}}"@
}

/// The sampler of channel number `g`: which accessors hold times and values.
pub open spec fn sampler_text(g: int) -> Seq<char> {
    "{\"input\":"@ + text::decimal((7 + 2 * g) as nat) + ",\"output\":"@ + text::decimal(
        (8 + 2 * g) as nat,
    ) + ",\"interpolation\":\"LINEAR\"}"@
}

/// An animation with `n` channels that start at number `first`.
pub open spec fn animation_text(name: Seq<char>, channels: Seq<ChannelView>, first: int, n: nat) -> Seq<
    char,
> {
    "{\"name\":"@ + quoted(name) + ",\"channels\":["@ + bytes::joined(
        n,
        ","@,
        |k: int| channel_text(channels, first, k),
    ) + "],\"samplers\":["@ + bytes::joined(n, ","@, |k: int| sampler_text(first + k)) + "]}"@
}

/// The clips that have a channel.
pub open spec fn keyed_clips(clips: Seq<AnimationClip>, bones: nat) -> Seq<int> {
    listing::indices_where(clips.len(), |c: int| keys::clip_channels(clips[c], bones).len() > 0)
}

/// The animation of clip `c`.
pub open spec fn clip_text(clips: Seq<AnimationClip>, bones: nat, c: int) -> Seq<char> {
    animation_text(
        clips[c].name@,
        all_channels(clips, bones),
        channels_of(clips, bones, c as nat).len() as int,
        keys::clip_channels(clips[c], bones).len(),
    )
}

/// The field that lists the animations, if there are any.
pub open spec fn animations_text(clips: Seq<AnimationClip>, bones: nat) -> Seq<char> {
    let list = keyed_clips(clips, bones);
    if list.len() == 0 {
        Seq::empty()
    } else {
        ",\"animations\":["@ + bytes::joined(
            list.len(),
            ","@,
            |i: int| clip_text(clips, bones, list[i]),
        ) + "]"@
    }
}

/// The texts that go with keys into the file.
#[derive(Clone, Debug)]
pub struct KeyNumbers {
    /// Decimal texts of the earliest and the latest time of each channel.
    pub spans: Vec<[String; 2]>,
    /// The local bind of each bone, taken apart.
    pub rests: Vec<RestTexts>,
}

fn triple_section(values: &Vec<[Scalar; 3]>) -> (b: Vec<u8>)
    ensures
        b@ == bytes::flat(values@.len(), |i: int| scalar_bytes(values@[i]@)),
{
    let ghost f = |i: int| scalar_bytes(values@[i]@);
    let mut b: Vec<u8> = Vec::new();
    let mut i: usize = 0;
    while i < values.len()
        invariant
            i <= values.len(),
            f == (|i: int| scalar_bytes(values@[i]@)),
            b@ == bytes::flat(i as nat, f),
        decreases values.len() - i,
    {
        let ghost piece = f(i as int);
        push_scalars(&mut b, &values[i]);
        i += 1;
    }
    b
}

fn quad_section(values: &Vec<[Scalar; 4]>) -> (b: Vec<u8>)
    ensures
        b@ == bytes::flat(values@.len(), |i: int| scalar_bytes(values@[i]@)),
{
    let ghost f = |i: int| scalar_bytes(values@[i]@);
    let mut b: Vec<u8> = Vec::new();
    let mut i: usize = 0;
    while i < values.len()
        invariant
            i <= values.len(),
            f == (|i: int| scalar_bytes(values@[i]@)),
            b@ == bytes::flat(i as nat, f),
        decreases values.len() - i,
    {
        let ghost piece = f(i as int);
        push_scalars(&mut b, &values[i]);
        i += 1;
    }
    b
}

fn time_section(channel: &Channel) -> (b: Vec<u8>)
    ensures
        b@ == scalar_bytes(channel@.times),
{
    let mut b: Vec<u8> = Vec::new();
    if let Some(times) = &channel.times {
        push_scalars(&mut b, times.as_slice());
    }
    assert(b@ =~= scalar_bytes(channel@.times));
    b
}

fn value_section(channel: &Channel) -> (b: Vec<u8>)
    ensures
        b@ == value_bytes(channel@.values),
{
    match &channel.outputs {
        Some(ChannelOutputs::Translations(v)) => triple_section(v),
        Some(ChannelOutputs::Rotations(v)) => quad_section(v),
        Some(ChannelOutputs::Scales(v)) => triple_section(v),
        _ => Vec::new(),
    }
}

fn time_count(channel: &Channel) -> (n: usize)
    ensures
        n == channel@.times.len(),
{
    match &channel.times {
        Some(times) => times.len(),
        None => 0,
    }
}

fn count_values(channel: &Channel) -> (n: usize)
    ensures
        n == value_count(channel@.values),
{
    match &channel.outputs {
        Some(ChannelOutputs::Translations(v)) => v.len(),
        Some(ChannelOutputs::Rotations(v)) => v.len(),
        Some(ChannelOutputs::Scales(v)) => v.len(),
        _ => 0,
    }
}

fn path_name(channel: &Channel) -> (r: &'static str)
    ensures
        r@ == path_text(channel@.values),
{
    match &channel.outputs {
        Some(ChannelOutputs::Translations(_)) => "translation",
        Some(ChannelOutputs::Rotations(_)) => "rotation",
        Some(ChannelOutputs::Scales(_)) => "scale",
        _ => "weights",
    }
}

fn shape_name(channel: &Channel) -> (r: &'static str)
    ensures
        r@ == shape_text(channel@.values),
{
    match &channel.outputs {
        Some(ChannelOutputs::Rotations(_)) => "VEC4",
        _ => "VEC3",
    }
}

/// The channels of all clips as the file numbers them.
pub fn exported_keys(clips: &Vec<AnimationClip>, bones: usize) -> (r: Vec<Channel>)
    ensures
        keys::views(r@) == all_channels(clips@, bones as nat),
{
    let (all, _) = gather_channels(clips, bones);
    all
}

fn push_channels(all: &mut Vec<Channel>, more: Vec<Channel>)
    ensures
        keys::views(final(all)@) == keys::views(old(all)@) + keys::views(more@),
{
    let ghost added = more@;
    let mut more = more;
    all.append(&mut more);
    assert(keys::views(all@) =~= keys::views(old(all)@) + keys::views(added));
}

fn gather_channels(clips: &Vec<AnimationClip>, bones: usize) -> (r: (Vec<Channel>, Vec<usize>))
    ensures
        keys::views(r.0@) == all_channels(clips@, bones as nat),
        r.1@.len() == clips@.len() + 1,
        forall|c: int|
            0 <= c <= clips@.len() ==> #[trigger] r.1@[c] == channels_of(
                clips@,
                bones as nat,
                c as nat,
            ).len(),
{
    let ghost lists = channel_lists(clips@, bones as nat);
    let mut all: Vec<Channel> = Vec::new();
    let mut starts: Vec<usize> = Vec::new();
    starts.push(0);
    let mut c: usize = 0;
    assert(keys::views(all@) =~= bytes::flat(0, lists));
    while c < clips.len()
        invariant
            c <= clips.len(),
            lists == channel_lists(clips@, bones as nat),
            keys::views(all@) == bytes::flat(c as nat, lists),
            starts@.len() == c + 1,
            forall|d: int|
                0 <= d <= c ==> #[trigger] starts@[d] == channels_of(
                    clips@,
                    bones as nat,
                    d as nat,
                ).len(),
        decreases clips.len() - c,
    {
        let ghost piece = lists(c as int);
        let more = keys::exported_channels(&clips[c], bones);
        push_channels(&mut all, more);
        starts.push(all.len());
        assert(keys::views(all@).len() == all@.len());
        c += 1;
    }
    (all, starts)
}

fn channel_json(channel: &Channel, k: usize) -> (r: String)
    ensures
        r@ == "{\"sampler\":"@ + text::decimal(k as nat) + ",\"target\":{\"node\":"@
            + text::decimal(channel@.node as nat) + ",\"path\":\""@ + path_text(channel@.values)
            + "\"}}"@,
{
    let mut r = "{\"sampler\":".to_owned();
    text::push_decimal(&mut r, k as u64);
    r.append(",\"target\":{\"node\":");
    text::push_decimal(&mut r, channel.node as u64);
    r.append(",\"path\":\"");
    r.append(path_name(channel));
    r.append("\"}}");
    r
}

fn sampler_json(g: usize) -> (r: String)
    requires
        2 * g + 8 <= usize::MAX,
    ensures
        r@ == sampler_text(g as int),
{
    let mut r = "{\"input\":".to_owned();
    text::push_decimal(&mut r, (7 + 2 * g) as u64);
    r.append(",\"output\":");
    text::push_decimal(&mut r, (8 + 2 * g) as u64);
    r.append(",\"interpolation\":\"LINEAR\"}");
    r
}

fn animation_json(name: &str, channels: &Vec<Channel>, first: usize, n: usize) -> (r: String)
    requires
        first + n <= channels@.len(),
        2 * channels@.len() + 8 <= usize::MAX,
    ensures
        r@ == animation_text(name@, keys::views(channels@), first as int, n as nat),
{
    let ghost views = keys::views(channels@);
    let mut targets: Vec<String> = Vec::new();
    let mut samplers: Vec<String> = Vec::new();
    let mut k: usize = 0;
    while k < n
        invariant
            k <= n,
            first + n <= channels@.len(),
            2 * channels@.len() + 8 <= usize::MAX,
            views == keys::views(channels@),
            targets@.len() == k,
            samplers@.len() == k,
            forall|j: int|
                0 <= j < k ==> (#[trigger] targets@[j])@ == channel_text(views, first as int, j),
            forall|j: int| 0 <= j < k ==> (#[trigger] samplers@[j])@ == sampler_text(first + j),
        decreases n - k,
    {
        assert(views[first + k] == channels@[first + k]@);
        targets.push(channel_json(&channels[first + k], k));
        samplers.push(sampler_json(first + k));
        k += 1;
    }
    proof {
        bytes::joined_same(
            n as nat,
            ","@,
            |k: int| targets@[k]@,
            |k: int| channel_text(views, first as int, k),
        );
        bytes::joined_same(
            n as nat,
            ","@,
            |k: int| samplers@[k]@,
            |k: int| sampler_text(first + k),
        );
    }
    let mut r = "{\"name\":".to_owned();
    r.append(json_string(name).as_str());
    r.append(",\"channels\":[");
    r.append(bytes::join_texts(&targets).as_str());
    r.append("],\"samplers\":[");
    r.append(bytes::join_texts(&samplers).as_str());
    r.append("]}");
    r
}

proof fn starts_below(clips: Seq<AnimationClip>, bones: nat, c: nat, n: nat)
    requires
        c <= n,
    ensures
        channels_of(clips, bones, c).len() <= channels_of(clips, bones, n).len(),
    decreases n,
{
    if c < n {
        starts_below(clips, bones, c, (n - 1) as nat);
    }
}

fn animations_field(
    clips: &Vec<AnimationClip>,
    bones: usize,
    channels: &Vec<Channel>,
    starts: &Vec<usize>,
) -> (r: String)
    requires
        keys::views(channels@) == all_channels(clips@, bones as nat),
        2 * channels@.len() + 8 <= usize::MAX,
        starts@.len() == clips@.len() + 1,
        forall|c: int|
            0 <= c <= clips@.len() ==> #[trigger] starts@[c] == channels_of(
                clips@,
                bones as nat,
                c as nat,
            ).len(),
    ensures
        r@ == animations_text(clips@, bones as nat),
{
    let ghost keyed = |c: int| keys::clip_channels(clips@[c], bones as nat).len() > 0;
    let ghost mut list: Seq<int> = Seq::empty();
    let mut texts: Vec<String> = Vec::new();
    let mut c: usize = 0;
    while c < clips.len()
        invariant
            c <= clips.len(),
            keyed == (|c: int| keys::clip_channels(clips@[c], bones as nat).len() > 0),
            keys::views(channels@) == all_channels(clips@, bones as nat),
            2 * channels@.len() + 8 <= usize::MAX,
            starts@.len() == clips@.len() + 1,
            forall|c: int|
                0 <= c <= clips@.len() ==> #[trigger] starts@[c] == channels_of(
                    clips@,
                    bones as nat,
                    c as nat,
                ).len(),
            list == listing::indices_where(c as nat, keyed),
            texts@.len() == list.len(),
            forall|i: int|
                0 <= i < list.len() ==> (#[trigger] texts@[i])@ == clip_text(
                    clips@,
                    bones as nat,
                    list[i],
                ),
        decreases clips.len() - c,
    {
        let ghost lists = channel_lists(clips@, bones as nat);
        assert(starts@[c + 1] == starts@[c as int] + lists(c as int).len());
        proof {
            starts_below(clips@, bones as nat, (c + 1) as nat, clips@.len());
            assert(keys::views(channels@).len() == channels@.len());
        }
        let first: usize = starts[c];
        let n: usize = starts[c + 1] - first;
        if n > 0 {
            texts.push(animation_json(clips[c].name.as_str(), channels, first, n));
            proof {
                list = list.push(c as int);
            }
        }
        assert(keyed(c as int) == (n > 0));
        c += 1;
    }
    if texts.len() == 0 {
        let r = String::new();
        assert(r@ =~= animations_text(clips@, bones as nat));
        return r;
    }
    proof {
        bytes::joined_same(
            texts@.len(),
            ","@,
            |i: int| texts@[i]@,
            |i: int| clip_text(clips@, bones as nat, list[i]),
        );
    }
    let mut r = ",\"animations\":[".to_owned();
    r.append(bytes::join_texts(&texts).as_str());
    r.append("]");
    r
}

// ── export ────────────────────────────────────────────────────────────────────

/// The numbers that go with a mesh and its skeleton into the file.
pub struct GlbNumbers {
    /// Weight sums, one per influence set.
    pub sums: Vec<WeightTotal>,
    /// Inverse bind matrices, one per bone.
    pub inverse_binds: Vec<Matrix>,
    /// Decimal text of the lowest position per axis.
    pub min_text: [String; 3],
    /// Decimal text of the highest position per axis.
    pub max_text: [String; 3],
    /// Decimal text of each entry of each bone's local bind matrix.
    pub matrix_texts: Vec<Vec<String>>,
}

/// The data sections in file order.
pub open spec fn sections_of(mesh: SkinnedMesh, numbers: GlbNumbers) -> Seq<Section> {
    seq![
        Section { target: Some(ARRAY_BUFFER), data: position_bytes(mesh.vertices@) },
        Section { target: Some(ARRAY_BUFFER), data: normal_bytes(mesh.vertices@) },
        Section { target: Some(ARRAY_BUFFER), data: uv_bytes(mesh.vertices@) },
        Section {
            target: Some(ARRAY_BUFFER),
            data: all_joint_bytes(mesh.influences@, numbers.sums@),
        },
        Section {
            target: Some(ARRAY_BUFFER),
            data: all_weight_bytes(mesh.influences@, numbers.sums@),
        },
        Section { target: Some(ELEMENT_ARRAY), data: index_bytes(mesh.indices@) },
        Section { target: None, data: matrix_bytes(numbers.inverse_binds@) },
    ]
}

/// The data sections of a mesh with clips: those of the mesh, then the keys.
pub open spec fn all_sections(
    mesh: SkinnedMesh,
    numbers: GlbNumbers,
    channels: Seq<ChannelView>,
) -> Seq<Section> {
    sections_of(mesh, numbers) + key_sections(channels)
}

/// The buffer view of section `k`.
pub open spec fn view_text(sections: Seq<Section>, k: int) -> Seq<char> {
    let stretch = "{\"buffer\":0,\"byteOffset\":"@ + text::decimal(offset_of(sections, k))
        + ",\"byteLength\":"@ + text::decimal(sections[k].data.len());
    match sections[k].target {
        Some(t) => stretch + ",\"target\":"@ + text::decimal(t as nat) + "}"@,
        None => stretch + "}"@,
    }
}

fn view_json(view: &BufferView, Ghost(sections): Ghost<Seq<Section>>, Ghost(k): Ghost<int>) -> (r:
    String)
    requires
        records(*view, sections, k),
    ensures
        r@ == view_text(sections, k),
{
    let mut r = "{\"buffer\":0,\"byteOffset\":".to_owned();
    text::push_decimal(&mut r, view.offset as u64);
    r.append(",\"byteLength\":");
    text::push_decimal(&mut r, view.length as u64);
    if let Some(t) = view.target {
        r.append(",\"target\":");
        text::push_decimal(&mut r, t as u64);
    }
    r.append("}");
    r
}

/// The accessor numbered `k`.
pub open spec fn accessor_of(
    mesh: SkinnedMesh,
    skeleton: Skeleton,
    numbers: GlbNumbers,
    channels: Seq<ChannelView>,
    spans: Seq<[String; 2]>,
    k: int,
) -> Seq<char> {
    let vertices = mesh.vertices@.len();
    if k == 0 {
        accessor_text(
            0,
            5126,
            vertices,
            "VEC3"@,
            bounds_text(numbers.min_text@, numbers.max_text@),
        )
    } else if k == 1 {
        accessor_text(1, 5126, vertices, "VEC3"@, ""@)
    } else if k == 2 {
        accessor_text(2, 5126, vertices, "VEC2"@, ""@)
    } else if k == 3 {
        accessor_text(3, 5123, vertices, "VEC4"@, ""@)
    } else if k == 4 {
        accessor_text(4, 5126, vertices, "VEC4"@, ""@)
    } else if k == 5 {
        accessor_text(5, 5125, mesh.indices@.len(), "SCALAR"@, ""@)
    } else if k == 6 {
        accessor_text(6, 5126, skeleton.bones@.len(), "MAT4"@, ""@)
    } else {
        key_accessor(channels, spans, k - 7)
    }
}

/// The node numbered `k`: the mesh node, then one node per bone. A bone that
/// keys drive carries its transform taken apart.
pub open spec fn node_of(
    skeleton: Skeleton,
    numbers: GlbNumbers,
    channels: Seq<ChannelView>,
    rests: Seq<RestTexts>,
    k: int,
) -> Seq<char> {
    if k == 0 {
        "{\"name\":\"rigged_mesh\",\"mesh\":0,\"skin\":0}"@
    } else {
        node_text(
            skeleton.bones@,
            k - 1,
            transform_text(
                numbers.matrix_texts@[k - 1]@,
                if is_keyed(channels, k - 1) {
                    Some(rests[k - 1])
                } else {
                    None
                },
            ),
        )
    }
}

/// The skin: joint `i` is bone `i`.
pub open spec fn skin_text(bones: Seq<Bone>) -> Seq<char> {
    "{\"inverseBindMatrices\":6,\"skeleton\":"@ + text::decimal(
        if roots_of(bones).len() > 0 {
            (roots_of(bones)[0] + 1) as nat
        } else {
            1
        },
    ) + ",\"joints\":["@ + node_numbers(Seq::new(bones.len(), |i: int| i)) + "]}"@
}

/// The nodes of the scene: the mesh node and the root joints.
pub open spec fn scene_text(bones: Seq<Bone>) -> Seq<char> {
    if roots_of(bones).len() > 0 {
        "0,"@ + node_numbers(roots_of(bones))
    } else {
        "0"@
    }
}

/// The whole document.
pub open spec fn document_text(
    mesh: SkinnedMesh,
    skeleton: Skeleton,
    numbers: GlbNumbers,
    clips: Seq<AnimationClip>,
    spans: Seq<[String; 2]>,
    rests: Seq<RestTexts>,
) -> Seq<char> {
    let bones = skeleton.bones@;
    let channels = all_channels(clips, bones.len());
    let sections = all_sections(mesh, numbers, channels);
    let n = sections.len();
    "{\"asset\":{\"version\":\"2.0\",\"generator\":\"Cube Bauhaus rig bay\"},\"scene\":0,\"scenes\":[{\"nodes\":["@
        + scene_text(bones) + "]}],\"nodes\":["@ + bytes::joined(
        bones.len() + 1,
        ","@,
        |k: int| node_of(skeleton, numbers, channels, rests, k),
    )
        + "],\"meshes\":[{\"primitives\":[{\"attributes\":{\"POSITION\":0,\"NORMAL\":1,\"TEXCOORD_0\":2,\"JOINTS_0\":3,\"WEIGHTS_0\":4},\"indices\":5}]}],\"skins\":["@
        + skin_text(bones) + "]"@ + animations_text(clips, bones.len()) + ",\"accessors\":["@
        + bytes::joined(
        n,
        ","@,
        |k: int| accessor_of(mesh, skeleton, numbers, channels, spans, k),
    ) + "],\"bufferViews\":["@ + bytes::joined(n, ","@, |k: int| view_text(sections, k))
        + "],\"buffers\":[{\"byteLength\":"@ + text::decimal(buffer_of(sections, n).len()) + "}]}"@
}

/// The whole file.
pub open spec fn file_of(
    mesh: SkinnedMesh,
    skeleton: Skeleton,
    numbers: GlbNumbers,
    clips: Seq<AnimationClip>,
    spans: Seq<[String; 2]>,
    rests: Seq<RestTexts>,
) -> Seq<u8> {
    let sections = all_sections(
        mesh,
        numbers,
        all_channels(clips, skeleton.bones@.len()),
    );
    container(
        vstd::utf8::encode_utf8(document_text(mesh, skeleton, numbers, clips, spans, rests)),
        buffer_of(sections, sections.len()),
    )
}

fn skin_json(skeleton: &Skeleton, roots: &Vec<usize>) -> (r: String)
    requires
        skeleton.bones@.len() <= u16::MAX,
        roots@.map_values(|b: usize| b as int) == roots_of(skeleton.bones@),
        forall|k: int| 0 <= k < roots@.len() ==> #[trigger] roots@[k] < skeleton.bones@.len(),
    ensures
        r@ == skin_text(skeleton.bones@),
{
    let mut r = "{\"inverseBindMatrices\":6,\"skeleton\":".to_owned();
    let mut first: u64 = 1;
    if roots.len() > 0 {
        assert(roots@[0] < skeleton.bones@.len());
        assert(roots@.map_values(|b: usize| b as int)[0] == roots@[0]);
        first = (roots[0] + 1) as u64;
    }
    text::push_decimal(&mut r, first);
    r.append(",\"joints\":[");
    let mut all: Vec<usize> = Vec::new();
    let mut i: usize = 0;
    while i < skeleton.len()
        invariant
            i <= skeleton.bones@.len(),
            all@.len() == i,
            forall|k: int| 0 <= k < i ==> #[trigger] all@[k] == k,
        decreases skeleton.bones@.len() - i,
    {
        all.push(i);
        i += 1;
    }
    assert(all@.map_values(|b: usize| b as int) =~= Seq::new(skeleton.bones@.len(), |i: int| i));
    r.append(join_nodes(&all).as_str());
    r.append("]}");
    r
}

fn scene_nodes(roots: &Vec<usize>, Ghost(bones): Ghost<Seq<Bone>>) -> (r: String)
    requires
        roots@.map_values(|b: usize| b as int) == roots_of(bones),
        forall|k: int| 0 <= k < roots@.len() ==> #[trigger] roots@[k] < usize::MAX,
    ensures
        r@ == scene_text(bones),
{
    if roots.len() > 0 {
        let mut r = "0,".to_owned();
        r.append(join_nodes(roots).as_str());
        r
    } else {
        "0".to_owned()
    }
}

fn drives(channels: &Vec<Channel>, i: usize) -> (r: bool)
    requires
        i < usize::MAX,
    ensures
        r == is_keyed(keys::views(channels@), i as int),
{
    let ghost views = keys::views(channels@);
    let mut g: usize = 0;
    while g < channels.len()
        invariant
            g <= channels.len(),
            i < usize::MAX,
            views == keys::views(channels@),
            forall|h: int| 0 <= h < g ==> (#[trigger] views[h]).node != i + 1,
        decreases channels.len() - g,
    {
        if channels[g].node == i + 1 {
            assert(views[g as int].node == i + 1);
            return true;
        }
        g += 1;
    }
    false
}

fn node_list(
    skeleton: &Skeleton,
    numbers: &GlbNumbers,
    channels: &Vec<Channel>,
    rests: &Vec<RestTexts>,
) -> (r: String)
    requires
        numbers.matrix_texts@.len() == skeleton.bones@.len(),
        skeleton.bones@.len() <= u16::MAX,
        channels@.len() > 0 ==> rests@.len() == skeleton.bones@.len(),
    ensures
        r@ == bytes::joined(
            skeleton.bones@.len() + 1,
            ","@,
            |k: int| node_of(*skeleton, *numbers, keys::views(channels@), rests@, k),
        ),
{
    let ghost views = keys::views(channels@);
    let mut nodes: Vec<String> = Vec::new();
    nodes.push("{\"name\":\"rigged_mesh\",\"mesh\":0,\"skin\":0}".to_owned());
    let mut i: usize = 0;
    while i < skeleton.len()
        invariant
            i <= skeleton.bones@.len(),
            skeleton.bones@.len() <= u16::MAX,
            numbers.matrix_texts@.len() == skeleton.bones@.len(),
            channels@.len() > 0 ==> rests@.len() == skeleton.bones@.len(),
            views == keys::views(channels@),
            nodes@.len() == i + 1,
            forall|k: int|
                0 <= k <= i ==> (#[trigger] nodes@[k])@ == node_of(
                    *skeleton,
                    *numbers,
                    views,
                    rests@,
                    k,
                ),
        decreases skeleton.bones@.len() - i,
    {
        let transform = if drives(channels, i) {
            assert(views.len() == channels@.len());
            transform_field(&numbers.matrix_texts[i], Some(&rests[i]))
        } else {
            transform_field(&numbers.matrix_texts[i], None)
        };
        nodes.push(bone_node(skeleton, i, transform.as_str()));
        i += 1;
    }
    proof {
        bytes::joined_same(
            nodes@.len(),
            ","@,
            |k: int| nodes@[k]@,
            |k: int| node_of(*skeleton, *numbers, views, rests@, k),
        );
    }
    bytes::join_texts(&nodes)
}

fn span_field(span: &[String; 2]) -> (r: String)
    ensures
        r@ == span_text(span@),
{
    let mut r = ",\"min\":[".to_owned();
    r.append(span[0].as_str());
    r.append("],\"max\":[");
    r.append(span[1].as_str());
    r.append("]");
    r
}

fn accessor_list(
    mesh: &SkinnedMesh,
    skeleton: &Skeleton,
    numbers: &GlbNumbers,
    channels: &Vec<Channel>,
    spans: &Vec<[String; 2]>,
) -> (r: String)
    requires
        2 * channels@.len() + 8 <= usize::MAX,
        spans@.len() == channels@.len(),
    ensures
        r@ == bytes::joined(
            7 + 2 * channels@.len(),
            ","@,
            |k: int| accessor_of(*mesh, *skeleton, *numbers, keys::views(channels@), spans@, k),
        ),
{
    let ghost views = keys::views(channels@);
    let ghost f = |k: int| accessor_of(*mesh, *skeleton, *numbers, views, spans@, k);
    let vertices: usize = mesh.vertices.len();
    let bounds = bounds_field(&numbers.min_text, &numbers.max_text);
    let mut list: Vec<String> = Vec::new();
    list.push(accessor(0, 5126, vertices, "VEC3", bounds.as_str()));
    list.push(accessor(1, 5126, vertices, "VEC3", ""));
    list.push(accessor(2, 5126, vertices, "VEC2", ""));
    list.push(accessor(3, 5123, vertices, "VEC4", ""));
    list.push(accessor(4, 5126, vertices, "VEC4", ""));
    list.push(accessor(5, 5125, mesh.indices.len(), "SCALAR", ""));
    list.push(accessor(6, 5126, skeleton.len(), "MAT4", ""));
    assert forall|k: int| 0 <= k < 7 implies (#[trigger] list@[k])@ == f(k) by {
        assert(k == 0 || k == 1 || k == 2 || k == 3 || k == 4 || k == 5 || k == 6);
    }
    let mut g: usize = 0;
    while g < channels.len()
        invariant
            g <= channels.len(),
            2 * channels@.len() + 8 <= usize::MAX,
            spans@.len() == channels@.len(),
            views == keys::views(channels@),
            f == (|k: int| accessor_of(*mesh, *skeleton, *numbers, views, spans@, k)),
            list@.len() == 7 + 2 * g,
            forall|k: int| 0 <= k < list@.len() ==> (#[trigger] list@[k])@ == f(k),
        decreases channels.len() - g,
    {
        let c = &channels[g];
        assert(views[g as int] == c@);
        let span = span_field(&spans[g]);
        let ghost before = list@;
        list.push(accessor(7 + 2 * g, 5126, time_count(c), "SCALAR", span.as_str()));
        list.push(accessor(8 + 2 * g, 5126, count_values(c), shape_name(c), ""));
        proof {
            let (p, q): (int, int) = (7 + 2 * g as int, 8 + 2 * g as int);
            assert((p - 7) / 2 == g && (p - 7) % 2 == 0);
            assert((q - 7) / 2 == g && (q - 7) % 2 == 1);
            assert(list@[p]@ == f(p));
            assert(list@[q]@ == f(q));
            assert forall|k: int| 0 <= k < list@.len() implies (#[trigger] list@[k])@ == f(k) by {
                if k < p {
                    assert(list@[k] == before[k]);
                }
            }
        }
        g += 1;
    }
    proof {
        bytes::joined_same(list@.len(), ","@, |k: int| list@[k]@, f);
    }
    bytes::join_texts(&list)
}

fn view_list(views: &Vec<BufferView>, Ghost(sections): Ghost<Seq<Section>>) -> (r: String)
    requires
        views@.len() == sections.len(),
        forall|k: int| 0 <= k < views@.len() ==> records(#[trigger] views@[k], sections, k),
    ensures
        r@ == bytes::joined(sections.len(), ","@, |k: int| view_text(sections, k)),
{
    let mut list: Vec<String> = Vec::new();
    let mut k: usize = 0;
    while k < views.len()
        invariant
            k <= views@.len(),
            forall|k: int| 0 <= k < views@.len() ==> records(#[trigger] views@[k], sections, k),
            list@.len() == k,
            forall|j: int| 0 <= j < k ==> (#[trigger] list@[j])@ == view_text(sections, j),
        decreases views@.len() - k,
    {
        list.push(view_json(&views[k], Ghost(sections), Ghost(k as int)));
        k += 1;
    }
    proof {
        bytes::joined_same(
            list@.len(),
            ","@,
            |k: int| list@[k]@,
            |k: int| view_text(sections, k),
        );
    }
    bytes::join_texts(&list)
}

/// A buffer of the first `n` sections with a view of each.
spec fn buffered(bin: Seq<u8>, views: Seq<BufferView>, sections: Seq<Section>, n: nat) -> bool {
    &&& bin == buffer_of(sections, n)
    &&& views.len() == n
    &&& forall|k: int| 0 <= k < n ==> records(#[trigger] views[k], sections, k)
}

fn push_section(
    bin: &mut Vec<u8>,
    views: &mut Vec<BufferView>,
    data: &Vec<u8>,
    target: Option<u32>,
    Ghost(sections): Ghost<Seq<Section>>,
)
    requires
        old(views)@.len() < sections.len(),
        buffered(old(bin)@, old(views)@, sections, old(views)@.len()),
        sections[old(views)@.len() as int] == (Section { target, data: data@ }),
    ensures
        buffered(final(bin)@, final(views)@, sections, old(views)@.len() + 1),
{
    let ghost before = views@;
    let _ = push_view(bin, views, target, data);
    assert forall|k: int| 0 <= k < views@.len() implies records(
        #[trigger] views@[k],
        sections,
        k,
    ) by {
        if k < before.len() {
            assert(views@[k] == views@.drop_last()[k]);
        }
    }
}

fn data_buffer(mesh: &SkinnedMesh, numbers: &GlbNumbers, channels: &Vec<Channel>) -> (r: (
    Vec<u8>,
    Vec<BufferView>,
))
    requires
        numbers.sums@.len() == mesh.influences@.len(),
    ensures
        ({
            let sections = all_sections(*mesh, *numbers, keys::views(channels@));
            buffered(r.0@, r.1@, sections, sections.len())
        }),
{
    let ghost keyed = keys::views(channels@);
    let ghost base = sections_of(*mesh, *numbers);
    let ghost sections = all_sections(*mesh, *numbers, keyed);
    assert forall|k: int| 0 <= k < 7 implies #[trigger] sections[k] == base[k] by {}
    let mut bin: Vec<u8> = Vec::new();
    let mut views: Vec<BufferView> = Vec::new();
    let array = Some(ARRAY_BUFFER);
    let positions = position_section(&mesh.vertices);
    let normals = normal_section(&mesh.vertices);
    let uvs = uv_section(&mesh.vertices);
    let (joints, weights) = influence_sections(&mesh.influences, &numbers.sums);
    let indices = index_section(&mesh.indices);
    let matrices = matrix_section(&numbers.inverse_binds);
    assert(bin@ =~= buffer_of(sections, 0));
    push_section(&mut bin, &mut views, &positions, array, Ghost(sections));
    push_section(&mut bin, &mut views, &normals, array, Ghost(sections));
    push_section(&mut bin, &mut views, &uvs, array, Ghost(sections));
    push_section(&mut bin, &mut views, &joints, array, Ghost(sections));
    push_section(&mut bin, &mut views, &weights, array, Ghost(sections));
    push_section(&mut bin, &mut views, &indices, Some(ELEMENT_ARRAY), Ghost(sections));
    push_section(&mut bin, &mut views, &matrices, None, Ghost(sections));
    let mut g: usize = 0;
    while g < channels.len()
        invariant
            g <= channels.len(),
            keyed == keys::views(channels@),
            sections == all_sections(*mesh, *numbers, keyed),
            buffered(bin@, views@, sections, (7 + 2 * g) as nat),
        decreases channels.len() - g,
    {
        let c = &channels[g];
        proof {
            let (p, q): (int, int) = (7 + 2 * g as int, 8 + 2 * g as int);
            assert(keyed[g as int] == c@);
            assert((p - 7) / 2 == g && (p - 7) % 2 == 0);
            assert((q - 7) / 2 == g && (q - 7) % 2 == 1);
            assert(sections[p] == key_sections(keyed)[p - 7]);
            assert(sections[q] == key_sections(keyed)[q - 7]);
        }
        push_section(&mut bin, &mut views, &time_section(c), None, Ghost(sections));
        push_section(&mut bin, &mut views, &value_section(c), None, Ghost(sections));
        g += 1;
    }
    (bin, views)
}

/// Build the file in memory, with the clips as animations. An empty mesh and a
/// skeleton whose bones cannot be numbered with 16 bits are refused. Tracks of
/// bones that the skeleton lacks, tracks without keys and clips without tracks
/// leave no trace.
pub fn build_glb_animated(
    mesh: &SkinnedMesh,
    skeleton: &Skeleton,
    numbers: &GlbNumbers,
    clips: &Vec<AnimationClip>,
    key_numbers: &KeyNumbers,
) -> (r: Result<Vec<u8>, ExportError>)
    requires
        numbers.sums@.len() == mesh.influences@.len(),
        numbers.inverse_binds@.len() == skeleton.bones@.len(),
        numbers.matrix_texts@.len() == skeleton.bones@.len(),
        key_numbers.spans@.len() == all_channels(clips@, skeleton.bones@.len()).len(),
        clips@.len() > 0 ==> key_numbers.rests@.len() == skeleton.bones@.len(),
        2 * all_channels(clips@, skeleton.bones@.len()).len() + 8 <= usize::MAX,
    ensures
        match r {
            Ok(out) => {
                &&& mesh.vertices@.len() > 0
                &&& skeleton.bones@.len() <= u16::MAX
                &&& out@ == file_of(
                    *mesh,
                    *skeleton,
                    *numbers,
                    clips@,
                    key_numbers.spans@,
                    key_numbers.rests@,
                )
            },
            Err(e) => {
                ||| mesh.vertices@.len() == 0 && e == ExportError::Empty
                ||| {
                    &&& mesh.vertices@.len() > 0
                    &&& skeleton.bones@.len() > u16::MAX
                    &&& e == ExportError::TooManyBones(skeleton.bones@.len() as usize)
                }
            },
        },
{
    if mesh.vertices.len() == 0 {
        return Err(ExportError::Empty);
    }
    if skeleton.len() > u16::MAX as usize {
        return Err(ExportError::TooManyBones(skeleton.len()));
    }
    let (channels, starts) = gather_channels(clips, skeleton.len());
    let ghost views_of_keys = keys::views(channels@);
    assert(views_of_keys.len() == channels@.len());
    let (bin, views) = data_buffer(mesh, numbers, &channels);
    let ghost sections = all_sections(*mesh, *numbers, views_of_keys);
    assert(sections.len() == 7 + 2 * channels@.len());
    let roots = skeleton.roots();
    proof {
        let n = skeleton.bones.len();
        as_usize_back(n as nat, |j: int| skeleton.bones@[j].parent is None);
        assert(roots@.map_values(|b: usize| b as int) == roots_of(skeleton.bones@));
        if clips@.len() == 0 {
            assert(channels@.len() == 0);
        }
    }
    let mut json =
        "{\"asset\":{\"version\":\"2.0\",\"generator\":\"Cube Bauhaus rig bay\"},\"scene\":0,\"scenes\":[{\"nodes\":[".to_owned();
    json.append(scene_nodes(&roots, Ghost(skeleton.bones@)).as_str());
    json.append("]}],\"nodes\":[");
    json.append(node_list(skeleton, numbers, &channels, &key_numbers.rests).as_str());
    json.append(
        "],\"meshes\":[{\"primitives\":[{\"attributes\":{\"POSITION\":0,\"NORMAL\":1,\"TEXCOORD_0\":2,\"JOINTS_0\":3,\"WEIGHTS_0\":4},\"indices\":5}]}],\"skins\":[",
    );
    json.append(skin_json(skeleton, &roots).as_str());
    json.append("]");
    json.append(animations_field(clips, skeleton.len(), &channels, &starts).as_str());
    json.append(",\"accessors\":[");
    json.append(
        accessor_list(mesh, skeleton, numbers, &channels, &key_numbers.spans).as_str(),
    );
    json.append("],\"bufferViews\":[");
    json.append(view_list(&views, Ghost(sections)).as_str());
    json.append("],\"buffers\":[{\"byteLength\":");
    text::push_decimal(&mut json, bin.len() as u64);
    json.append("}]}");
    let encoded = vstd::slice::slice_to_vec(json.as_str().as_bytes());
    Ok(assemble_glb(encoded, bin))
}

/// Build the file in memory. An empty mesh and a skeleton whose bones cannot be
/// numbered with 16 bits are refused.
pub fn build_glb(mesh: &SkinnedMesh, skeleton: &Skeleton, numbers: &GlbNumbers) -> (r: Result<
    Vec<u8>,
    ExportError,
>)
    requires
        numbers.sums@.len() == mesh.influences@.len(),
        numbers.inverse_binds@.len() == skeleton.bones@.len(),
        numbers.matrix_texts@.len() == skeleton.bones@.len(),
    ensures
        match r {
            Ok(out) => {
                &&& mesh.vertices@.len() > 0
                &&& skeleton.bones@.len() <= u16::MAX
                &&& out@ == file_of(
                    *mesh,
                    *skeleton,
                    *numbers,
                    Seq::empty(),
                    Seq::empty(),
                    Seq::empty(),
                )
            },
            Err(e) => {
                ||| mesh.vertices@.len() == 0 && e == ExportError::Empty
                ||| {
                    &&& mesh.vertices@.len() > 0
                    &&& skeleton.bones@.len() > u16::MAX
                    &&& e == ExportError::TooManyBones(skeleton.bones@.len() as usize)
                }
            },
        },
{
    let clips: Vec<AnimationClip> = Vec::new();
    let key_numbers = KeyNumbers { spans: Vec::new(), rests: Vec::new() };
    assert(clips@ =~= Seq::empty());
    assert(key_numbers.spans@ =~= Seq::empty());
    assert(key_numbers.rests@ =~= Seq::empty());
    build_glb_animated(mesh, skeleton, numbers, &clips, &key_numbers)
}

/// Clips without a single exported key leave the file as it is without clips.
pub proof fn unkeyed_clips_change_nothing(
    mesh: SkinnedMesh,
    skeleton: Skeleton,
    numbers: GlbNumbers,
    clips: Seq<AnimationClip>,
    rests: Seq<RestTexts>,
)
    requires
        all_channels(clips, skeleton.bones@.len()).len() == 0,
    ensures
        file_of(mesh, skeleton, numbers, clips, Seq::empty(), rests) == file_of(
            mesh,
            skeleton,
            numbers,
            Seq::empty(),
            Seq::empty(),
            Seq::empty(),
        ),
{
    let bones = skeleton.bones@;
    let none = Seq::<AnimationClip>::empty();
    let channels = all_channels(clips, bones.len());
    assert(channels =~= all_channels(none, bones.len()));
    no_keyed_clip(clips, bones.len(), clips.len());
    assert(keyed_clips(none, bones.len()) =~= Seq::empty());
    bytes::joined_same(
        bones.len() + 1,
        ","@,
        |k: int| node_of(skeleton, numbers, channels, rests, k),
        |k: int| node_of(skeleton, numbers, channels, Seq::empty(), k),
    );
}

proof fn no_keyed_clip(clips: Seq<AnimationClip>, bones: nat, n: nat)
    requires
        n <= clips.len(),
        channels_of(clips, bones, n).len() == 0,
    ensures
        listing::indices_where(
            n,
            |c: int| keys::clip_channels(clips[c], bones).len() > 0,
        ).len() == 0,
    decreases n,
{
    let keyed = |c: int| keys::clip_channels(clips[c], bones).len() > 0;
    if n > 0 {
        let lists = channel_lists(clips, bones);
        assert(channels_of(clips, bones, n) == channels_of(clips, bones, (n - 1) as nat) + lists(
            n - 1,
        ));
        no_keyed_clip(clips, bones, (n - 1) as nat);
        assert(!keyed(n - 1));
    }
}

/// Filling up adds fewer than four bytes, all of them the fill, and none to what
/// is aligned already.
pub proof fn padding_is_short(b: Seq<u8>, fill: u8)
    ensures
        padded(b, fill).len() % 4 == 0,
        b.len() <= padded(b, fill).len() < b.len() + 4,
        padded(b, fill).take(b.len() as int) == b,
        forall|i: int| b.len() <= i < padded(b, fill).len() ==> #[trigger] padded(b, fill)[i] == fill,
        b.len() % 4 == 0 ==> padded(b, fill) == b,
{
    reveal(padded);
    assert(padded(b, fill).take(b.len() as int) =~= b);
    if b.len() % 4 == 0 {
        assert(padded(b, fill) =~= b);
    }
}

} // verus!
