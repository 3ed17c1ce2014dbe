//! The interface overlay: its font texture, its draw list and its buffers.
use crate::render::pipeline::EGUI_VERTEX_SIZE;
use crate::render::upload;
use crate::render::upload::index_bytes;
use vstd::arithmetic::power2;
use vstd::prelude::*;

verus! {

/// Buffers are made at least this large, to avoid making them anew too often.
pub const MIN_BUFFER_SIZE: u64 = 65536;

/// Which texture a change is about.
#[derive(Debug, Clone, Copy, PartialEq, Eq, Structural)]
pub enum TextureId {
    Managed(u64),
    User(u64),
}

/// The pixels of a texture image.
#[derive(Debug, Clone)]
pub enum Pixels {
    /// Red, green, blue and opacity of each pixel.
    Color(Vec<[u8; 4]>),
    /// The opacity of each pixel of a white glyph.
    Coverage(Vec<u8>),
}

/// One change to a texture.
#[derive(Debug, Clone)]
pub struct TextureDelta {
    pub id: TextureId,
    /// The change covers part of the texture only.
    pub partial: bool,
    pub width: usize,
    pub height: usize,
    pub pixels: Pixels,
}

/// A whole image that replaces the font texture.
#[derive(Debug, Clone)]
pub struct FontUpload {
    pub width: u32,
    pub height: u32,
    pub rgba: Vec<u8>,
}

impl View for FontUpload {
    type V = (u32, u32, Seq<u8>);

    open spec fn view(&self) -> (u32, u32, Seq<u8>) {
        (self.width, self.height, self.rgba@)
    }
}

impl Pixels {
    /// Four bytes for each pixel; glyph pixels are white.
    pub open spec fn rgba(&self) -> Seq<u8> {
        match self {
            Pixels::Color(p) => Seq::new(4 * p@.len(), |j: int| p@[j / 4]@[j % 4]),
            Pixels::Coverage(p) => Seq::new(
                4 * p@.len(),
                |j: int|
                    if j % 4 == 3 {
                        p@[j / 4]
                    } else {
                        255
                    },
            ),
        }
    }
}

impl TextureDelta {
    /// Only whole replacements of the font texture are taken.
    pub open spec fn taken(&self) -> bool {
        self.id == TextureId::Managed(0) && !self.partial
    }

    /// The upload that a taken change asks for.
    pub open spec fn upload(&self) -> (u32, u32, Seq<u8>) {
        (self.width as u32, self.height as u32, self.pixels.rgba())
    }
}

/// The uploads that changes ask for, in their order.
pub open spec fn uploads_of(deltas: Seq<TextureDelta>) -> Seq<(u32, u32, Seq<u8>)>
    decreases deltas.len(),
{
    if deltas.len() == 0 {
        Seq::empty()
    } else {
        let before = uploads_of(deltas.drop_last());
        if deltas.last().taken() {
            before.push(deltas.last().upload())
        } else {
            before
        }
    }
}

/// Spread pixels out to four bytes each.
pub fn expand_pixels(pixels: &Pixels) -> (r: Vec<u8>)
    ensures
        r@ == pixels.rgba(),
{
    let ghost all = pixels.rgba();
    let mut r: Vec<u8> = Vec::new();
    let mut i: usize = 0;
    assert(r@ =~= all.take(0));
    match pixels {
        Pixels::Color(p) => {
            while i < p.len()
                invariant
                    i <= p.len(),
                    all == Seq::new(4 * p@.len(), |j: int| p@[j / 4]@[j % 4]),
                    r@ == all.take(4 * i),
                decreases p.len() - i,
            {
                let c: [u8; 4] = p[i];
                r.push(c[0]);
                r.push(c[1]);
                r.push(c[2]);
                r.push(c[3]);
                assert(r@ =~= all.take(4 * (i + 1)));
                i += 1;
            }
        },
        Pixels::Coverage(p) => {
            while i < p.len()
                invariant
                    i <= p.len(),
                    all == Seq::new(
                        4 * p@.len(),
                        |j: int|
                            if j % 4 == 3 {
                                p@[j / 4]
                            } else {
                                255
                            },
                    ),
                    r@ == all.take(4 * i),
                decreases p.len() - i,
            {
                r.push(255);
                r.push(255);
                r.push(255);
                r.push(p[i]);
                assert(r@ =~= all.take(4 * (i + 1)));
                i += 1;
            }
        },
    }
    assert(all.take(all.len() as int) =~= all);
    r
}

/// The images that replace the font texture, in the order of the changes.
pub fn font_uploads(deltas: &Vec<TextureDelta>) -> (r: Vec<FontUpload>)
    ensures
        r@.map_values(|u: FontUpload| u@) == uploads_of(deltas@),
{
    let ghost seen = |u: FontUpload| u@;
    let mut r: Vec<FontUpload> = Vec::new();
    let mut i: usize = 0;
    assert(r@.map_values(seen) =~= uploads_of(deltas@.take(0)));
    while i < deltas.len()
        invariant
            i <= deltas.len(),
            seen == (|u: FontUpload| u@),
            r@.map_values(seen) == uploads_of(deltas@.take(i as int)),
        decreases deltas.len() - i,
    {
        let ghost before = r@;
        let d = &deltas[i];
        assert(deltas@.take(i + 1).drop_last() =~= deltas@.take(i as int));
        assert(deltas@.take(i + 1).last() == *d);
        if d.id == TextureId::Managed(0) && !d.partial {
            let upload = FontUpload {
                width: d.width as u32,
                height: d.height as u32,
                rgba: expand_pixels(&d.pixels),
            };
            r.push(upload);
            assert(r@.map_values(seen) =~= before.map_values(seen).push(d.upload()));
        }
        i += 1;
    }
    assert(deltas@.take(i as int) =~= deltas@);
    r
}

/// The part of the target that a mesh may draw to.
#[derive(Debug, Clone, Copy, PartialEq, Eq, Structural)]
pub struct Scissor {
    pub x: i32,
    pub y: i32,
    pub width: u32,
    pub height: u32,
}

/// An overlay vertex as it lies in memory.
pub type OverlayVertex = [u8; EGUI_VERTEX_SIZE];

/// One primitive of the interface.
#[derive(Debug, Clone)]
pub enum Primitive {
    Mesh { vertices: Vec<OverlayVertex>, indices: Vec<u32>, scissor: Scissor },
    /// Drawing by the application itself, which is left out.
    Callback,
}

/// One draw of the overlay.
#[derive(Debug, Clone, Copy, PartialEq, Eq, Structural)]
pub struct EguiDrawCall {
    pub index_count: u32,
    pub first_index: u32,
    pub vertex_offset: i32,
    pub scissor: Scissor,
}

/// The draw list of the interface.
#[derive(Debug, Clone)]
pub struct DrawList {
    pub vertices: Vec<OverlayVertex>,
    pub indices: Vec<u32>,
    pub calls: Vec<EguiDrawCall>,
}

/// What a draw list holds.
pub ghost struct DrawListView {
    pub vertices: Seq<OverlayVertex>,
    pub indices: Seq<u32>,
    pub calls: Seq<EguiDrawCall>,
}

impl View for DrawList {
    type V = DrawListView;

    open spec fn view(&self) -> DrawListView {
        DrawListView { vertices: self.vertices@, indices: self.indices@, calls: self.calls@ }
    }
}

impl Primitive {
    /// The primitive has something to draw.
    pub open spec fn has_content(&self) -> bool {
        self matches Primitive::Mesh { vertices, indices, .. } && vertices@.len() > 0
            && indices@.len() > 0
    }

    /// The primitive has something to draw and a place to draw it.
    pub open spec fn is_visible(&self) -> bool {
        self.has_content() && (self matches Primitive::Mesh { scissor, .. } && scissor.width > 0
            && scissor.height > 0)
    }
}

impl DrawListView {
    /// The list with one more primitive: its geometry is appended, and drawn
    /// if its scissor leaves any room.
    pub open spec fn with(self, p: Primitive) -> DrawListView {
        match p {
            Primitive::Mesh { vertices, indices, scissor } => {
                if !p.has_content() {
                    self
                } else {
                    DrawListView {
                        vertices: self.vertices + vertices@,
                        indices: self.indices + indices@,
                        calls: if p.is_visible() {
                            self.calls.push(
                                EguiDrawCall {
                                    index_count: indices@.len() as u32,
                                    first_index: self.indices.len() as u32,
                                    vertex_offset: self.vertices.len() as i32,
                                    scissor,
                                },
                            )
                        } else {
                            self.calls
                        },
                    }
                }
            },
            Primitive::Callback => self,
        }
    }
}

/// The draw list of primitives, in their order.
pub open spec fn draw_list_of(primitives: Seq<Primitive>) -> DrawListView
    decreases primitives.len(),
{
    if primitives.len() == 0 {
        DrawListView { vertices: Seq::empty(), indices: Seq::empty(), calls: Seq::empty() }
    } else {
        draw_list_of(primitives.drop_last()).with(primitives.last())
    }
}

fn push_vertices(out: &mut Vec<OverlayVertex>, more: &Vec<OverlayVertex>)
    ensures
        final(out)@ == old(out)@ + more@,
{
    let mut i: usize = 0;
    assert(out@ =~= old(out)@ + more@.take(0));
    while i < more.len()
        invariant
            i <= more.len(),
            out@ == old(out)@ + more@.take(i as int),
        decreases more.len() - i,
    {
        out.push(more[i]);
        assert(out@ =~= old(out)@ + more@.take(i + 1));
        i += 1;
    }
    assert(more@.take(i as int) =~= more@);
}

fn push_indices(out: &mut Vec<u32>, more: &Vec<u32>)
    ensures
        final(out)@ == old(out)@ + more@,
{
    let mut i: usize = 0;
    assert(out@ =~= old(out)@ + more@.take(0));
    while i < more.len()
        invariant
            i <= more.len(),
            out@ == old(out)@ + more@.take(i as int),
        decreases more.len() - i,
    {
        out.push(more[i]);
        assert(out@ =~= old(out)@ + more@.take(i + 1));
        i += 1;
    }
    assert(more@.take(i as int) =~= more@);
}

/// Gather the geometry and the draws of the interface.
pub fn gather(primitives: &Vec<Primitive>) -> (r: DrawList)
    ensures
        r@ == draw_list_of(primitives@),
{
    let mut r = DrawList { vertices: Vec::new(), indices: Vec::new(), calls: Vec::new() };
    let mut i: usize = 0;
    assert(r@.vertices =~= Seq::empty());
    assert(r@.indices =~= Seq::empty());
    assert(r@.calls =~= Seq::empty());
    assert(primitives@.take(0) =~= Seq::empty());
    while i < primitives.len()
        invariant
            i <= primitives.len(),
            r@ == draw_list_of(primitives@.take(i as int)),
        decreases primitives.len() - i,
    {
        assert(primitives@.take(i + 1).drop_last() =~= primitives@.take(i as int));
        assert(primitives@.take(i + 1).last() == primitives@[i as int]);
        let ghost before = r@;
        match &primitives[i] {
            Primitive::Mesh { vertices, indices, scissor } => {
                if vertices.len() > 0 && indices.len() > 0 {
                    let vertex_offset: i32 = r.vertices.len() as i32;
                    let first_index: u32 = r.indices.len() as u32;
                    push_vertices(&mut r.vertices, vertices);
                    push_indices(&mut r.indices, indices);
                    if scissor.width != 0 && scissor.height != 0 {
                        r.calls.push(
                            EguiDrawCall {
                                index_count: indices.len() as u32,
                                first_index,
                                vertex_offset,
                                scissor: *scissor,
                            },
                        );
                    }
                }
            },
            Primitive::Callback => {},
        }
        assert(r@ == before.with(primitives@[i as int]));
        i += 1;
    }
    assert(primitives@.take(i as int) =~= primitives@);
    r
}

/// The positions of the visible primitives, in their order.
pub open spec fn visible(primitives: Seq<Primitive>) -> Seq<int>
    decreases primitives.len(),
{
    if primitives.len() == 0 {
        Seq::empty()
    } else {
        let before = visible(primitives.drop_last());
        if primitives.last().is_visible() {
            before.push(primitives.len() - 1)
        } else {
            before
        }
    }
}

/// A draw reads exactly the indices and the vertices of its mesh, within the
/// buffers.
pub open spec fn shows(list: DrawListView, call: EguiDrawCall, p: Primitive) -> bool {
    p matches Primitive::Mesh { vertices, indices, scissor } && {
        &&& call.scissor == scissor
        &&& call.index_count == indices@.len()
        &&& call.first_index + call.index_count <= list.indices.len()
        &&& list.indices.subrange(
            call.first_index as int,
            call.first_index + call.index_count,
        ) == indices@
        &&& 0 <= call.vertex_offset
        &&& call.vertex_offset + vertices@.len() <= list.vertices.len()
        &&& list.vertices.subrange(
            call.vertex_offset as int,
            call.vertex_offset + vertices@.len(),
        ) == vertices@
    }
}

/// There is one draw for each visible primitive, in their order, and each
/// shows its own mesh, as long as the buffers can be addressed.
pub proof fn draws_show_their_meshes(primitives: Seq<Primitive>)
    requires
        draw_list_of(primitives).indices.len() <= u32::MAX,
        draw_list_of(primitives).vertices.len() <= i32::MAX,
    ensures
        draw_list_of(primitives).calls.len() == visible(primitives).len(),
        forall|k: int|
            0 <= k < visible(primitives).len() ==> {
                &&& 0 <= #[trigger] visible(primitives)[k] < primitives.len()
                &&& primitives[visible(primitives)[k]].is_visible()
                &&& shows(
                    draw_list_of(primitives),
                    draw_list_of(primitives).calls[k],
                    primitives[visible(primitives)[k]],
                )
            },
    decreases primitives.len(),
{
    if primitives.len() > 0 {
        let rest = primitives.drop_last();
        let p = primitives.last();
        let before = draw_list_of(rest);
        let after = draw_list_of(primitives);
        draws_show_their_meshes(rest);
        assert(after == before.with(p));
        assert forall|k: int| 0 <= k < visible(primitives).len() implies {
            &&& 0 <= #[trigger] visible(primitives)[k] < primitives.len()
            &&& primitives[visible(primitives)[k]].is_visible()
            &&& shows(after, after.calls[k], primitives[visible(primitives)[k]])
        } by {
            if k < visible(rest).len() {
                let q = primitives[visible(rest)[k]];
                assert(visible(primitives)[k] == visible(rest)[k]);
                assert(rest[visible(rest)[k]] == q);
                let call = before.calls[k];
                assert(after.calls[k] == call);
                if let Primitive::Mesh { vertices, indices, .. } = q {
                    let (f, n): (int, int) = (call.first_index as int, call.index_count as int);
                    let (o, m): (int, int) = (call.vertex_offset as int, vertices@.len() as int);
                    assert(after.indices.subrange(f, f + n) =~= before.indices.subrange(f, f + n));
                    assert(after.vertices.subrange(o, o + m) =~= before.vertices.subrange(o, o + m));
                }
            } else {
                if let Primitive::Mesh { vertices, indices, .. } = p {
                    let f: int = before.indices.len() as int;
                    let o: int = before.vertices.len() as int;
                    assert(after.indices.subrange(f, f + indices@.len()) =~= indices@);
                    assert(after.vertices.subrange(o, o + vertices@.len()) =~= vertices@);
                }
            }
        }
    }
}

/// Draw only once the font texture is there and something is visible.
pub fn frame_draws(font_ready: bool, primitives: &Vec<Primitive>) -> (r: Option<DrawList>)
    ensures
        r is Some <==> font_ready && draw_list_of(primitives@).calls.len() > 0,
        r matches Some(list) ==> list@ == draw_list_of(primitives@),
{
    if !font_ready {
        return None;
    }
    let list = gather(primitives);
    if list.calls.len() == 0 {
        None
    } else {
        Some(list)
    }
}

/// The bytes of the vertices, one vertex after the other.
pub open spec fn vertex_bytes_of(vertices: Seq<OverlayVertex>) -> Seq<u8> {
    Seq::new(
        vertices.len() * EGUI_VERTEX_SIZE as nat,
        |j: int| vertices[j / EGUI_VERTEX_SIZE as int]@[j % EGUI_VERTEX_SIZE as int],
    )
}

/// The contents of the overlay's buffers.
#[derive(Debug, Clone)]
pub struct OverlayUpload {
    pub vertex_bytes: Vec<u8>,
    pub index_bytes: Vec<u8>,
}

/// Lay a draw list out for the graphics memory.
pub fn overlay_upload(list: &DrawList) -> (r: OverlayUpload)
    ensures
        r.vertex_bytes@ == vertex_bytes_of(list.vertices@),
        upload::in_machine_order(list.indices@, r.index_bytes@),
        r.index_bytes@.len() == 4 * list.indices@.len(),
{
    let ghost all = vertex_bytes_of(list.vertices@);
    let mut vertex_bytes: Vec<u8> = Vec::new();
    let mut i: usize = 0;
    assert(vertex_bytes@ =~= all.take(0));
    while i < list.vertices.len()
        invariant
            i <= list.vertices.len(),
            all == vertex_bytes_of(list.vertices@),
            vertex_bytes@ == all.take(20 * i),
        decreases list.vertices.len() - i,
    {
        let v: OverlayVertex = list.vertices[i];
        let mut j: usize = 0;
        while j < EGUI_VERTEX_SIZE
            invariant
                j <= EGUI_VERTEX_SIZE,
                i < list.vertices.len(),
                v == list.vertices@[i as int],
                all == vertex_bytes_of(list.vertices@),
                vertex_bytes@ == all.take(20 * i + j),
            decreases EGUI_VERTEX_SIZE - j,
        {
            assert((20 * i + j) / 20 == i && (20 * i + j) % 20 == j);
            vertex_bytes.push(v[j]);
            assert(vertex_bytes@ =~= all.take(20 * i + j + 1));
            j += 1;
        }
        i += 1;
    }
    assert(all.take(all.len() as int) =~= all);
    OverlayUpload { vertex_bytes, index_bytes: index_bytes(&list.indices) }
}

/// The size is a power of two, large enough and not larger than it has to be.
pub open spec fn fits_snugly(size: u64, needed: u64) -> bool {
    &&& exists|k: nat| size == #[trigger] power2::pow2(k)
    &&& size >= needed
    &&& size >= MIN_BUFFER_SIZE
    &&& forall|k: nat| #[trigger] power2::pow2(k) >= needed && power2::pow2(k) >= MIN_BUFFER_SIZE ==> size <= power2::pow2(k)
}

/// The size of the buffer to make where the present one, if any, is too small;
/// none where it can stay.
pub fn grown_buffer(current: Option<u64>, needed: u64) -> (r: Option<u64>)
    requires
        needed <= 0x8000_0000_0000_0000,
    ensures
        r is None <==> (current matches Some(size) && size >= needed),
        r matches Some(size) ==> fits_snugly(size, needed),
{
    if let Some(size) = current {
        if size >= needed {
            return None;
        }
    }
    let mut size: u64 = MIN_BUFFER_SIZE;
    let ghost mut exponent: nat = 16;
    proof {
        power2::lemma2_to64();
    }
    while size < needed
        invariant
            needed <= 0x8000_0000_0000_0000,
            size == power2::pow2(exponent),
            16 <= exponent,
            size >= MIN_BUFFER_SIZE,
            exponent > 16 ==> power2::pow2((exponent - 1) as nat) < needed,
            power2::pow2(16) == MIN_BUFFER_SIZE,
        decreases u64::MAX - size,
    {
        proof {
            power2::lemma_pow2_adds(exponent, 1);
            power2::lemma2_to64();
            assert(power2::pow2(exponent + 1) == 2 * size) by (nonlinear_arith)
                requires
                    power2::pow2(exponent + 1) == power2::pow2(exponent) * power2::pow2(1),
                    power2::pow2(1) == 2,
                    size == power2::pow2(exponent),
            ;
            exponent = exponent + 1;
        }
        size = size * 2;
    }
    proof {
        power_is_least(exponent, needed);
    }
    Some(size)
}

proof fn power_is_least(exponent: nat, needed: u64)
    requires
        16 <= exponent,
        power2::pow2(16) == MIN_BUFFER_SIZE,
        exponent > 16 ==> power2::pow2((exponent - 1) as nat) < needed,
    ensures
        forall|k: nat| #[trigger]
            power2::pow2(k) >= needed && power2::pow2(k) >= MIN_BUFFER_SIZE ==> power2::pow2(exponent) <= power2::pow2(k),
{
    assert forall|k: nat| #[trigger] power2::pow2(k) >= needed && power2::pow2(k) >= MIN_BUFFER_SIZE implies power2::pow2(
        exponent,
    ) <= power2::pow2(k) by {
        if k < exponent {
            if k < exponent - 1 {
                power2::lemma_pow2_strictly_increases(k, (exponent - 1) as nat);
            }
            if exponent == 16 {
                power2::lemma_pow2_strictly_increases(k, 16);
            }
        } else if exponent < k {
            power2::lemma_pow2_strictly_increases(exponent, k);
        }
    }
}

/// The four bytes of pixel `k` are the pixel itself, or white with the pixel's
/// coverage as opacity.
pub proof fn pixels_take_four_bytes(pixels: Pixels, k: int, c: int)
    requires
        0 <= k,
        0 <= c < 4,
    ensures
        pixels matches Pixels::Color(p) ==> pixels.rgba().len() == 4 * p@.len() && (k < p@.len()
            ==> pixels.rgba()[4 * k + c] == p@[k]@[c]),
        pixels matches Pixels::Coverage(p) ==> pixels.rgba().len() == 4 * p@.len() && (k < p@.len()
            ==> pixels.rgba()[4 * k + c] == (if c < 3 { 255 } else { p@[k] })),
{
}

/// The uploads of two lists of changes are those of one after those of the
/// other, and a single change is uploaded exactly if it replaces the whole font
/// texture, which is managed texture number zero.
pub proof fn uploads_follow_the_changes(a: Seq<TextureDelta>, b: Seq<TextureDelta>)
    ensures
        uploads_of(a + b) == uploads_of(a) + uploads_of(b),
        a.len() == 1 ==> {
            let d = a[0];
            if (d.id matches TextureId::Managed(n) && n == 0) && !d.partial {
                uploads_of(a) == seq![(d.width as u32, d.height as u32, d.pixels.rgba())]
            } else {
                uploads_of(a).len() == 0
            }
        },
    decreases b.len(),
{
    if a.len() == 1 {
        assert(a.drop_last().len() == 0);
        assert(uploads_of(a.drop_last()) =~= Seq::empty());
    }
    if b.len() == 0 {
        assert(a + b =~= a);
        assert(uploads_of(a) + uploads_of(b) =~= uploads_of(a));
    } else {
        uploads_follow_the_changes(a, b.drop_last());
        assert((a + b).drop_last() =~= a + b.drop_last());
        assert(uploads_of(a + b) =~= uploads_of(a) + uploads_of(b));
    }
}

/// A primitive is listed as visible exactly if it has vertices and indices and
/// its scissor has an area; the list ascends.
pub proof fn visible_lists_what_can_be_seen(primitives: Seq<Primitive>, i: int)
    ensures
        visible(primitives).contains(i) <==> 0 <= i < primitives.len() && (
        primitives[i] matches Primitive::Mesh { vertices, indices, scissor } && vertices@.len() > 0
            && indices@.len() > 0 && scissor.width > 0 && scissor.height > 0),
        forall|a: int, b: int|
            0 <= a < b < visible(primitives).len() ==> visible(primitives)[a] < visible(
                primitives,
            )[b],
        forall|a: int|
            0 <= a < visible(primitives).len() ==> 0 <= #[trigger] visible(primitives)[a]
                < primitives.len(),
    decreases primitives.len(),
{
    if primitives.len() > 0 {
        let front = primitives.drop_last();
        visible_lists_what_can_be_seen(front, i);
        let before = visible(front);
        let all = visible(primitives);
        if before.contains(i) {
            assert(all[before.index_of(i)] == i);
        }
        if all.contains(i) && i != primitives.len() - 1 {
            assert(before[all.index_of(i)] == i);
        }
        if primitives.last().is_visible() {
            assert(all[before.len() as int] == primitives.len() - 1);
        }
    }
}

/// A mesh with vertices and indices is appended whole, whether or not it is
/// drawn; a primitive that lacks one of them changes nothing.
pub proof fn meshes_are_appended_whole(list: DrawListView, p: Primitive)
    ensures
        p matches Primitive::Mesh { vertices, indices, .. } ==> if vertices@.len() > 0
            && indices@.len() > 0 {
            list.with(p).vertices == list.vertices + vertices@ && list.with(p).indices
                == list.indices + indices@
        } else {
            list.with(p) == list
        },
        p is Callback ==> list.with(p) == list,
        list.with(p).calls.take(list.calls.len() as int) == list.calls,
        list.with(p).calls.len() <= list.calls.len() + 1,
{
    assert(list.with(p).calls.take(list.calls.len() as int) =~= list.calls);
}

/// The bytes of vertex `i` stand together behind those of the vertices before
/// it.
pub proof fn vertex_bytes_stand_in_order(vertices: Seq<OverlayVertex>, i: int)
    requires
        0 <= i < vertices.len(),
    ensures
        vertex_bytes_of(vertices).len() == 20 * vertices.len(),
        vertex_bytes_of(vertices).subrange(20 * i, 20 * i + 20) == vertices[i]@,
{
    assert(vertex_bytes_of(vertices).subrange(20 * i, 20 * i + 20) =~= vertices[i]@);
}

} // verus!
