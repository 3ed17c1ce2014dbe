//! Vertex layouts, pipeline settings and shader code words.
use crate::bytes;
use crate::render::upload;
use vstd::prelude::*;

verus! {

/// The bytes of one scene vertex: position, normal, texture place, colour.
pub const VERTEX_SIZE: u32 = 48;

/// The bytes of one overlay vertex: position, texture place, colour.
pub const EGUI_VERTEX_SIZE: usize = 20;

/// What an attribute holds.
#[derive(Debug, Clone, Copy, PartialEq, Eq, Structural)]
pub enum AttributeFormat {
    /// Two 32-bit numbers.
    Pair,
    /// Three 32-bit numbers.
    Triple,
    /// Four 32-bit numbers.
    Quad,
    /// Four bytes that stand for fractions of one.
    Bytes,
}

impl AttributeFormat {
    /// The bytes that the attribute takes.
    pub open spec fn size(&self) -> int {
        match self {
            AttributeFormat::Pair => 8,
            AttributeFormat::Triple => 12,
            AttributeFormat::Quad => 16,
            AttributeFormat::Bytes => 4,
        }
    }
}

/// One input of the vertex stage. All are read from the first buffer.
#[derive(Debug, Clone, Copy, PartialEq, Eq, Structural)]
pub struct VertexAttribute {
    pub location: u32,
    pub format: AttributeFormat,
    pub offset: u32,
}

/// The inputs of the scene's vertex stage.
pub fn vertex_attributes() -> (r: [VertexAttribute; 4])
    ensures
        r@ == scene_layout(),
{
    let r = [
        VertexAttribute { location: 0, format: AttributeFormat::Triple, offset: 0 },
        VertexAttribute { location: 1, format: AttributeFormat::Triple, offset: 12 },
        VertexAttribute { location: 2, format: AttributeFormat::Pair, offset: 24 },
        VertexAttribute { location: 3, format: AttributeFormat::Quad, offset: 32 },
    ];
    assert(r@ =~= scene_layout());
    r
}

/// The inputs of the overlay's vertex stage.
pub fn overlay_attributes() -> (r: [VertexAttribute; 3])
    ensures
        r@ == overlay_layout(),
{
    let r = [
        VertexAttribute { location: 0, format: AttributeFormat::Pair, offset: 0 },
        VertexAttribute { location: 1, format: AttributeFormat::Pair, offset: 8 },
        VertexAttribute { location: 2, format: AttributeFormat::Bytes, offset: 16 },
    ];
    assert(r@ =~= overlay_layout());
    r
}

/// Position, normal, texture place and colour of a scene vertex.
pub open spec fn scene_layout() -> Seq<VertexAttribute> {
    seq![
        VertexAttribute { location: 0, format: AttributeFormat::Triple, offset: 0 },
        VertexAttribute { location: 1, format: AttributeFormat::Triple, offset: 12 },
        VertexAttribute { location: 2, format: AttributeFormat::Pair, offset: 24 },
        VertexAttribute { location: 3, format: AttributeFormat::Quad, offset: 32 },
    ]
}

/// Position, texture place and colour of an overlay vertex.
pub open spec fn overlay_layout() -> Seq<VertexAttribute> {
    seq![
        VertexAttribute { location: 0, format: AttributeFormat::Pair, offset: 0 },
        VertexAttribute { location: 1, format: AttributeFormat::Pair, offset: 8 },
        VertexAttribute { location: 2, format: AttributeFormat::Bytes, offset: 16 },
    ]
}

/// The attributes follow one another without a gap, fill a vertex of `stride`
/// bytes, and are numbered from zero.
pub open spec fn tiles(layout: Seq<VertexAttribute>, stride: int) -> bool {
    &&& layout.len() > 0
    &&& layout[0].offset == 0
    &&& layout.last().offset + layout.last().format.size() == stride
    &&& forall|i: int| 0 <= i < layout.len() ==> (#[trigger] layout[i]).location == i
    &&& forall|i: int, j: int|
        0 <= i && j == i + 1 && j < layout.len() ==> (#[trigger] layout[j]).offset
            == (#[trigger] layout[i]).offset + layout[i].format.size()
}

/// Both layouts fill their vertices exactly.
pub proof fn layouts_tile()
    ensures
        tiles(scene_layout(), VERTEX_SIZE as int),
        tiles(overlay_layout(), EGUI_VERTEX_SIZE as int),
{
}

/// How a pipeline treats the depth buffer.
#[derive(Debug, Clone, Copy, PartialEq, Eq, Structural)]
pub enum DepthMode {
    /// Test and write: solid geometry.
    WriteAndTest,
    /// Test only: lines laid over the geometry.
    TestNoWrite,
}

/// Which depths pass the test.
#[derive(Debug, Clone, Copy, PartialEq, Eq, Structural)]
pub enum DepthTest {
    Less,
    LessOrEqual,
}

/// What the primitives of a pipeline are made of.
#[derive(Debug, Clone, Copy, PartialEq, Eq, Structural)]
pub enum Topology {
    Triangles,
    Lines,
}

/// The fixed settings of a pipeline.
#[derive(Debug, Clone, Copy, PartialEq, Eq, Structural)]
pub struct PipelineSettings {
    pub topology: Topology,
    /// Draw the edges of triangles only.
    pub edges_only: bool,
    /// Leave out triangles seen from behind.
    pub cull_back: bool,
    pub depth_write: bool,
    /// Which depths pass; without a test there is no depth buffer.
    pub depth_test: Option<DepthTest>,
    /// Mix with what is already there by the source's opacity.
    pub blend: bool,
    /// Keep of the opacity that is already there what the source leaves open;
    /// otherwise the source's opacity replaces it.
    pub adds_opacity: bool,
}

/// The settings that follow from a depth mode: lines laid over the geometry
/// pass at equal depth, leave the depth buffer alone and blend.
pub fn pipeline_settings(
    topology: Topology,
    edges_only: bool,
    cull_back: bool,
    depth: DepthMode,
) -> (r: PipelineSettings)
    ensures
        r.topology == topology,
        r.edges_only == edges_only,
        r.cull_back == cull_back,
        r.depth_write == (depth is WriteAndTest),
        r.depth_test == Some(
            if depth is WriteAndTest {
                DepthTest::Less
            } else {
                DepthTest::LessOrEqual
            },
        ),
        r.blend == (depth is TestNoWrite),
        !r.adds_opacity,
{
    match depth {
        DepthMode::WriteAndTest => PipelineSettings {
            topology,
            edges_only,
            cull_back,
            depth_write: true,
            depth_test: Some(DepthTest::Less),
            blend: false,
            adds_opacity: false,
        },
        DepthMode::TestNoWrite => PipelineSettings {
            topology,
            edges_only,
            cull_back,
            depth_write: false,
            depth_test: Some(DepthTest::LessOrEqual),
            blend: true,
            adds_opacity: false,
        },
    }
}

/// The three pipelines of the scene: solid, triangle edges, and line overlay.
pub fn forward_pipelines() -> (r: (PipelineSettings, PipelineSettings, PipelineSettings))
    ensures
        r.0 == (PipelineSettings {
            topology: Topology::Triangles,
            edges_only: false,
            cull_back: true,
            depth_write: true,
            depth_test: Some(DepthTest::Less),
            blend: false,
            adds_opacity: false,
        }),
        r.1 == (PipelineSettings { edges_only: true, cull_back: false, ..r.0 }),
        r.2 == (PipelineSettings {
            topology: Topology::Lines,
            edges_only: false,
            cull_back: false,
            depth_write: false,
            depth_test: Some(DepthTest::LessOrEqual),
            blend: true,
            adds_opacity: false,
        }),
{
    (
        pipeline_settings(Topology::Triangles, false, true, DepthMode::WriteAndTest),
        pipeline_settings(Topology::Triangles, true, false, DepthMode::WriteAndTest),
        pipeline_settings(Topology::Lines, false, false, DepthMode::TestNoWrite),
    )
}

/// The pipeline of the overlay: its triangles show from both sides, blend with
/// the scene and know no depth.
pub fn overlay_pipeline() -> (r: PipelineSettings)
    ensures
        r == (PipelineSettings {
            topology: Topology::Triangles,
            edges_only: false,
            cull_back: false,
            depth_write: false,
            depth_test: None,
            blend: true,
            adds_opacity: true,
        }),
{
    PipelineSettings {
        topology: Topology::Triangles,
        edges_only: false,
        cull_back: false,
        depth_write: false,
        depth_test: None,
        blend: true,
        adds_opacity: true,
    }
}

/// Shader code as words: each four bytes are a number, low byte first.
pub fn shader_words(code: &Vec<u8>) -> (r: Vec<u32>)
    requires
        code@.len() % 4 == 0,
    ensures
        r@.len() == code@.len() / 4,
        forall|i: int| 0 <= i < r@.len() ==> #[trigger] r@[i] == bytes::read_u32(code@, 4 * i),
{
    let mut r: Vec<u32> = Vec::new();
    let mut at: usize = 0;
    while at < code.len()
        invariant
            at <= code.len(),
            at % 4 == 0,
            code@.len() % 4 == 0,
            r@.len() == at / 4,
            forall|i: int| 0 <= i < r@.len() ==> #[trigger] r@[i] == bytes::read_u32(code@, 4 * i),
        decreases code.len() - at,
    {
        let word: u32 = code[at] as u32 + 256 * code[at + 1] as u32 + 65536 * code[at + 2] as u32
            + 16777216 * code[at + 3] as u32;
        assert(4 * r@.len() == at);
        r.push(word);
        at += 4;
    }
    r
}

/// Writing the words low byte first gives the code back.
pub proof fn words_give_code_back(code: Seq<u8>, words: Seq<u32>)
    requires
        code.len() == 4 * words.len(),
        forall|i: int| 0 <= i < words.len() ==> #[trigger] words[i] == bytes::read_u32(code, 4 * i),
    ensures
        bytes::flat(words.len(), |i: int| bytes::le_u32(words[i])) == code,
{
    prefix_given_back(code, words, words.len());
    assert(code.take(4 * words.len() as int) =~= code);
}

proof fn prefix_given_back(code: Seq<u8>, words: Seq<u32>, n: nat)
    requires
        code.len() == 4 * words.len(),
        n <= words.len(),
        forall|i: int| 0 <= i < words.len() ==> #[trigger] words[i] == bytes::read_u32(code, 4 * i),
    ensures
        bytes::flat(n, |i: int| bytes::le_u32(words[i])) == code.take(4 * n as int),
    decreases n,
{
    let piece = |i: int| bytes::le_u32(words[i]);
    if n > 0 {
        let k: int = n - 1;
        prefix_given_back(code, words, k as nat);
        let (a, b, c, d): (int, int, int, int) = (
            code[4 * k] as int,
            code[4 * k + 1] as int,
            code[4 * k + 2] as int,
            code[4 * k + 3] as int,
        );
        let w: int = words[k] as int;
        assert(w == a + 256 * b + 65536 * c + 16777216 * d);
        assert(w % 256 == a);
        assert(w / 256 == b + 256 * c + 65536 * d);
        assert(w / 256 % 256 == b);
        assert(w / 65536 == c + 256 * d);
        assert(w / 65536 % 256 == c);
        assert(w / 16777216 == d);
        reveal(bytes::le_u32);
        assert(piece(k) =~= code.subrange(4 * k, 4 * k + 4));
        assert(code.take(4 * n as int) =~= code.take(4 * k) + code.subrange(4 * k, 4 * k + 4));
    } else {
        assert(code.take(0) =~= Seq::<u8>::empty());
    }
}

/// Each attribute of the scene reads its own part of a vertex as it is laid out
/// for the graphics memory, and the whole of it.
pub proof fn attributes_read_their_parts(v: upload::Vertex, k: int)
    requires
        0 <= k,
    ensures
        ({
            let layout = scene_layout();
            &&& layout.len() == 4
            &&& layout[0].format.size() == 4 * v.position@.len()
            &&& layout[1].format.size() == 4 * v.normal@.len()
            &&& layout[2].format.size() == 4 * v.uv@.len()
            &&& layout[3].format.size() == 4 * v.color@.len()
            &&& k < 3 ==> v.words()[layout[0].offset / 4 + k] == v.position@[k].bits
            &&& k < 3 ==> v.words()[layout[1].offset / 4 + k] == v.normal@[k].bits
            &&& k < 2 ==> v.words()[layout[2].offset / 4 + k] == v.uv@[k].bits
            &&& k < 4 ==> v.words()[layout[3].offset / 4 + k] == v.color@[k].bits
        }),
{
    upload::words_tell_the_vertex(v, k);
}

} // verus!
