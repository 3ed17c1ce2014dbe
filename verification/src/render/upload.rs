//! Geometry as it goes to the graphics memory.
use crate::bytes;
use crate::scalar::Scalar;
use vstd::prelude::*;

verus! {

/// A scene vertex: place, normal, texture place, and colour for tints and
/// highlights.
#[derive(Debug, Clone, Copy)]
pub struct Vertex {
    pub position: [Scalar; 3],
    pub normal: [Scalar; 3],
    pub uv: [Scalar; 2],
    pub color: [Scalar; 4],
}

impl Vertex {
    pub fn new(
        position: [Scalar; 3],
        normal: [Scalar; 3],
        uv: [Scalar; 2],
        color: [Scalar; 4],
    ) -> (r: Vertex)
        ensures
            r == (Vertex { position, normal, uv, color }),
    {
        Vertex { position, normal, uv, color }
    }

    /// The bit patterns of the vertex in the order of the layout.
    pub open spec fn words(&self) -> Seq<u32> {
        let bits = |s: Scalar| s.bits;
        self.position@.map_values(bits) + self.normal@.map_values(bits) + self.uv@.map_values(bits)
            + self.color@.map_values(bits)
    }
}

/// The four bytes of a 32-bit number, high byte first.
pub open spec fn be_u32(v: u32) -> Seq<u8> {
    bytes::le_u32(v).reverse()
}

/// The bytes of the words, in the byte order of the machine.
pub open spec fn in_machine_order(words: Seq<u32>, b: Seq<u8>) -> bool {
    ||| b == bytes::flat(words.len(), |i: int| bytes::le_u32(words[i]))
    ||| b == bytes::flat(words.len(), |i: int| be_u32(words[i]))
}

/// The words as they lie in memory.
///
/// Calls `bytemuck::cast_slice`, which views a slice as a slice of another
/// plain type over the same memory. From 32-bit words to bytes it cannot fail,
/// and it gives four bytes for each word, all of them low byte first or all of
/// them high byte first, as the machine has it. Which of the two is left open.
#[verifier::external_body]
fn words_in_memory(words: &Vec<u32>) -> (r: Vec<u8>)
    ensures
        in_machine_order(words@, r@),
{
    bytemuck::cast_slice::<u32, u8>(words.as_slice()).to_vec()
}

/// Four bytes for each word.
pub proof fn machine_order_len(words: Seq<u32>, b: Seq<u8>)
    requires
        in_machine_order(words, b),
    ensures
        b.len() == 4 * words.len(),
{
    broadcast use bytes::le_u32_len;

    bytes::flat_len(words.len(), |i: int| bytes::le_u32(words[i]), 4);
    bytes::flat_len(words.len(), |i: int| be_u32(words[i]), 4);
}

/// An index list as bytes for an index buffer.
pub fn index_bytes(indices: &Vec<u32>) -> (r: Vec<u8>)
    ensures
        in_machine_order(indices@, r@),
        r@.len() == 4 * indices@.len(),
{
    let r = words_in_memory(indices);
    proof {
        machine_order_len(indices@, r@);
    }
    r
}

/// The words of all vertices, one vertex after the other.
pub open spec fn words_of(vertices: Seq<Vertex>) -> Seq<u32> {
    bytes::flat(vertices.len(), |i: int| vertices[i].words())
}

fn push_words(words: &mut Vec<u32>, part: &[Scalar])
    ensures
        final(words)@ == old(words)@ + part@.map_values(|s: Scalar| s.bits),
{
    let ghost bits = |s: Scalar| s.bits;
    let mut i: usize = 0;
    assert(words@ =~= old(words)@ + part@.take(0).map_values(bits));
    while i < part.len()
        invariant
            i <= part.len(),
            bits == (|s: Scalar| s.bits),
            words@ == old(words)@ + part@.take(i as int).map_values(bits),
        decreases part.len() - i,
    {
        words.push(part[i].bits);
        assert(words@ =~= old(words)@ + part@.take(i + 1).map_values(bits));
        i += 1;
    }
    assert(part@.take(i as int) =~= part@);
}

/// Vertices as bytes for a vertex buffer.
pub fn vertex_bytes(vertices: &Vec<Vertex>) -> (r: Vec<u8>)
    ensures
        in_machine_order(words_of(vertices@), r@),
        r@.len() == 48 * vertices@.len(),
{
    let ghost piece = |i: int| vertices@[i].words();
    let mut words: Vec<u32> = Vec::new();
    let mut i: usize = 0;
    while i < vertices.len()
        invariant
            i <= vertices.len(),
            piece == (|i: int| vertices@[i].words()),
            words@ == bytes::flat(i as nat, piece),
        decreases vertices.len() - i,
    {
        let ghost before = words@;
        let v = vertices[i];
        push_words(&mut words, &v.position);
        push_words(&mut words, &v.normal);
        push_words(&mut words, &v.uv);
        push_words(&mut words, &v.color);
        assert(words@ =~= before + piece(i as int));
        i += 1;
    }
    let r = words_in_memory(&words);
    proof {
        machine_order_len(words@, r@);
        bytes::flat_len(vertices@.len(), piece, 12);
    }
    r
}

/// The buffers of a mesh, ready to be copied.
#[derive(Debug, Clone)]
pub struct MeshUpload {
    pub vertex_bytes: Vec<u8>,
    pub index_bytes: Vec<u8>,
    pub index_count: u32,
}

/// Lay a mesh out for the graphics memory.
pub fn mesh_upload(vertices: &Vec<Vertex>, indices: &Vec<u32>) -> (r: MeshUpload)
    ensures
        in_machine_order(words_of(vertices@), r.vertex_bytes@),
        r.vertex_bytes@.len() == 48 * vertices@.len(),
        in_machine_order(indices@, r.index_bytes@),
        r.index_bytes@.len() == 4 * indices@.len(),
        r.index_count == indices@.len() as u32,
{
    MeshUpload {
        vertex_bytes: vertex_bytes(vertices),
        index_bytes: index_bytes(indices),
        index_count: indices.len() as u32,
    }
}

/// A vertex is twelve words: its position, its normal, its texture coordinates
/// and its colour, each in the order of its parts.
pub proof fn words_tell_the_vertex(v: Vertex, k: int)
    ensures
        v.words().len() == 12,
        0 <= k < 3 ==> v.words()[k] == v.position@[k].bits,
        0 <= k < 3 ==> v.words()[3 + k] == v.normal@[k].bits,
        0 <= k < 2 ==> v.words()[6 + k] == v.uv@[k].bits,
        0 <= k < 4 ==> v.words()[8 + k] == v.color@[k].bits,
{
}

/// Vertex `i` is the twelve words from number `12 * i` on.
pub proof fn vertices_stand_twelve_words_apart(vertices: Seq<Vertex>, i: int, k: int)
    requires
        0 <= i < vertices.len(),
        0 <= k < 12,
    ensures
        words_of(vertices).len() == 12 * vertices.len(),
        words_of(vertices)[12 * i + k] == vertices[i].words()[k],
{
    let f = |i: int| vertices[i].words();
    assert forall|j: int| 0 <= j < vertices.len() implies (#[trigger] f(j)).len() == 12 by {
        words_tell_the_vertex(vertices[j], 0);
    }
    bytes::flat_len(vertices.len(), f, 12);
    bytes::flat_len(i as nat, f, 12);
    bytes::flat_holds_each_piece(vertices.len(), f, i);
    assert(f(i)[k] == vertices[i].words()[k]);
}

/// Bytes with the high one first tell the number.
pub proof fn read_back_high_byte_first(v: u32)
    ensures
        be_u32(v).len() == 4,
        16777216 * be_u32(v)[0] + 65536 * be_u32(v)[1] + 256 * be_u32(v)[2] + be_u32(v)[3] == v,
{
    let b = bytes::le_u32(v);
    bytes::le_u32_len(v);
    assert(b.subrange(0, 4) =~= b);
    bytes::read_back_u32(b, 0, v);
}

} // verus!
