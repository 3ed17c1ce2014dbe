//! Texture layers and screenshots.
use crate::bytes;
use vstd::prelude::*;

verus! {

/// The byte that stands for missing texture data: grey.
pub const MISSING: u8 = 128;

/// The one pixel that is bound while no texture is loaded: opaque grey.
pub fn placeholder_pixel() -> (r: [u8; 4])
    ensures
        r@ == seq![128u8, 128u8, 128u8, 255u8],
{
    let r = [128u8, 128u8, 128u8, 255u8];
    assert(r@ =~= seq![128u8, 128u8, 128u8, 255u8]);
    r
}

/// The bytes of one layer: cut to `size` bytes, or filled up with grey.
pub open spec fn fitted(layer: Seq<u8>, size: nat) -> Seq<u8> {
    Seq::new(
        size,
        |j: int|
            if j < layer.len() {
                layer[j]
            } else {
                MISSING
            },
    )
}

/// All layers, each fitted, one after the other.
pub open spec fn staged(layers: Seq<Vec<u8>>, size: nat) -> Seq<u8> {
    bytes::flat(layers.len(), |i: int| fitted(layers[i]@, size))
}

/// A texture array on its way to the graphics memory.
#[derive(Debug, Clone)]
pub struct TextureStaging {
    pub layer_count: u32,
    pub bytes_per_layer: u64,
    pub bytes: Vec<u8>,
    /// Where each layer starts.
    pub offsets: Vec<u64>,
}

/// Lay the layers of a square texture array out one after the other. Without
/// layers there is nothing to do.
pub fn stage_texture_array(tex_size: u32, layers: &Vec<Vec<u8>>) -> (r: Option<TextureStaging>)
    requires
        layers@.len() > 0 ==> tex_size * tex_size * 4 <= u32::MAX,
        layers@.len() <= u32::MAX,
        layers@.len() > 0 ==> tex_size * tex_size * 4 * layers@.len() <= usize::MAX,
    ensures
        r is None <==> layers@.len() == 0,
        r matches Some(s) ==> {
            &&& s.layer_count == layers@.len()
            &&& s.bytes_per_layer == tex_size * tex_size * 4
            &&& s.bytes@ == staged(layers@, (tex_size * tex_size * 4) as nat)
            &&& s.bytes@.len() == tex_size * tex_size * 4 * layers@.len()
            &&& s.offsets@ == Seq::new(
                layers@.len(),
                |i: int| (i * (tex_size * tex_size * 4)) as u64,
            )
        },
{
    let count: usize = layers.len();
    if count == 0 {
        return None;
    }
    assert(tex_size * tex_size <= u32::MAX);
    let size: u32 = tex_size * tex_size * 4;
    let ghost total: int = size * count;
    assert(total == tex_size * tex_size * 4 * layers@.len());
    assert(size <= total) by (nonlinear_arith)
        requires
            total == size * count,
            count >= 1,
            size >= 0,
    ;
    let per_layer: usize = size as usize;
    let ghost piece = |i: int| fitted(layers@[i]@, size as nat);
    let ghost place = |i: int| (i * size) as u64;
    let mut staged_bytes: Vec<u8> = Vec::new();
    let mut offsets: Vec<u64> = Vec::new();
    let mut offset: u64 = 0;
    let mut i: usize = 0;
    while i < count
        invariant
            i <= count,
            count == layers@.len(),
            per_layer == size,
            total == size * count,
            total <= usize::MAX,
            offset == i * size,
            piece == (|i: int| fitted(layers@[i]@, size as nat)),
            place == (|i: int| (i * size) as u64),
            staged_bytes@ == bytes::flat(i as nat, piece),
            offsets@ == Seq::new(i as nat, place),
        decreases count - i,
    {
        assert(offset + size <= total) by (nonlinear_arith)
            requires
                offset == i * size,
                i < count,
                size >= 0,
                total == size * count,
        ;
        assert((i + 1) * size == i * size + size) by (nonlinear_arith);
        offsets.push(offset);
        assert(offsets@ =~= Seq::new((i + 1) as nat, place));
        push_fitted(&mut staged_bytes, &layers[i], per_layer);
        offset = offset + size as u64;
        i += 1;
    }
    proof {
        bytes::flat_len(layers@.len(), piece, size as nat);
        assert(layers@.len() * size == total) by (nonlinear_arith)
            requires
                total == size * count,
                count == layers@.len(),
        ;
        bytes::flat_same(
            layers@.len(),
            piece,
            |i: int| fitted(layers@[i]@, (tex_size * tex_size * 4) as nat),
        );
    }
    assert(offsets@ =~= Seq::new(
        layers@.len(),
        |i: int| (i * (tex_size * tex_size * 4)) as u64,
    ));
    Some(
        TextureStaging {
            layer_count: count as u32,
            bytes_per_layer: size as u64,
            bytes: staged_bytes,
            offsets,
        },
    )
}

fn push_fitted(out: &mut Vec<u8>, layer: &Vec<u8>, size: usize)
    ensures
        final(out)@ == old(out)@ + fitted(layer@, size as nat),
{
    let ghost whole = fitted(layer@, size as nat);
    let mut j: usize = 0;
    assert(out@ =~= old(out)@ + whole.take(0));
    while j < size
        invariant
            j <= size,
            whole == fitted(layer@, size as nat),
            out@ == old(out)@ + whole.take(j as int),
        decreases size - j,
    {
        let b: u8 = if j < layer.len() {
            layer[j]
        } else {
            MISSING
        };
        out.push(b);
        assert(out@ =~= old(out)@ + whole.take(j + 1));
        j += 1;
    }
    assert(whole.take(size as int) =~= whole);
}

/// Every layer stands whole at its offset, and layers do not overlap: layer
/// `i` is the `size` bytes from `i * size` on.
pub proof fn layers_stand_at_their_offsets(layers: Seq<Vec<u8>>, size: nat, i: int)
    requires
        0 <= i < layers.len(),
    ensures
        0 <= i * size,
        (i + 1) * size <= staged(layers, size).len(),
        staged(layers, size).subrange(i * size, (i + 1) * size) == fitted(layers[i]@, size),
{
    let piece = |i: int| fitted(layers[i]@, size);
    piece_in_place(layers.len(), piece, size, i);
}

proof fn piece_in_place(n: nat, piece: spec_fn(int) -> Seq<u8>, size: nat, i: int)
    requires
        0 <= i < n,
        forall|k: int| 0 <= k < n ==> (#[trigger] piece(k)).len() == size,
    ensures
        0 <= i * size,
        (i + 1) * size <= bytes::flat(n, piece).len(),
        bytes::flat(n, piece).subrange(i * size, (i + 1) * size) == piece(i),
    decreases n,
{
    let before = bytes::flat((n - 1) as nat, piece);
    bytes::flat_len((n - 1) as nat, piece, size);
    assert(0 <= i * size && (i + 1) * size == i * size + size) by (nonlinear_arith)
        requires
            i >= 0,
            size >= 0,
    ;
    if i == n - 1 {
        assert(bytes::flat(n, piece).subrange(i * size, (i + 1) * size) =~= piece(i));
    } else {
        piece_in_place((n - 1) as nat, piece, size, i);
        assert(bytes::flat(n, piece).subrange(i * size, (i + 1) * size) =~= before.subrange(
            i * size,
            (i + 1) * size,
        ));
    }
}

/// A BGRA pixel row as opaque RGBA.
pub open spec fn swizzled(raw: Seq<u8>) -> Seq<u8> {
    Seq::new(
        raw.len(),
        |j: int|
            if j % 4 == 0 {
                raw[j + 2]
            } else if j % 4 == 1 {
                raw[j]
            } else if j % 4 == 2 {
                raw[j - 2]
            } else {
                255
            },
    )
}

/// The pixels of a captured image, from BGRA to opaque RGBA.
pub fn screenshot_pixels(width: u32, height: u32, raw: &Vec<u8>) -> (r: Vec<u8>)
    requires
        width * height <= u32::MAX,
        raw@.len() == width * height * 4,
    ensures
        r@ == swizzled(raw@),
{
    let count: u32 = width * height;
    let mut r: Vec<u8> = Vec::new();
    let mut i: u32 = 0;
    let length: usize = raw.len();
    while i < count
        invariant
            i <= count,
            length == raw@.len(),
            raw@.len() == count * 4,
            r@ == swizzled(raw@).take(i * 4),
        decreases count - i,
    {
        let off: usize = i as usize * 4;
        r.push(raw[off + 2]);
        r.push(raw[off + 1]);
        r.push(raw[off]);
        r.push(255);
        assert(r@ =~= swizzled(raw@).take((i + 1) * 4));
        i += 1;
    }
    assert(swizzled(raw@).take(count * 4) =~= swizzled(raw@));
    r
}

/// Doing it twice keeps every colour; only the opacity is replaced.
pub proof fn swizzle_twice_keeps_colors(raw: Seq<u8>, j: int)
    requires
        raw.len() % 4 == 0,
        0 <= j < raw.len(),
    ensures
        swizzled(swizzled(raw)).len() == raw.len(),
        j % 4 != 3 ==> swizzled(swizzled(raw))[j] == raw[j],
        j % 4 == 3 ==> swizzled(swizzled(raw))[j] == 255,
{
}

/// A fitted layer has the wanted size. It starts with what the layer holds, and
/// what the layer lacks is grey; fitting again to no more than that is fitting
/// once.
pub proof fn fitted_layers_start_with_the_layer(layer: Seq<u8>, size: nat, less: nat)
    requires
        less <= size,
    ensures
        fitted(layer, size).len() == size,
        size <= layer.len() ==> fitted(layer, size) == layer.take(size as int),
        layer.len() <= size ==> fitted(layer, size).take(layer.len() as int) == layer && forall|
            j: int,
        |
            layer.len() <= j < size ==> #[trigger] fitted(layer, size)[j] == 128,
        fitted(fitted(layer, size), less) == fitted(layer, less),
{
    if size <= layer.len() {
        assert(fitted(layer, size) =~= layer.take(size as int));
    } else {
        assert(fitted(layer, size).take(layer.len() as int) =~= layer);
    }
    assert(fitted(fitted(layer, size), less) =~= fitted(layer, less));
}

/// In every pixel the first and the third byte change places, the second stays
/// and the fourth makes it opaque.
pub proof fn pixels_exchange_red_and_blue(raw: Seq<u8>, k: int)
    requires
        0 <= k,
        4 * k + 4 <= raw.len(),
    ensures
        swizzled(raw)[4 * k] == raw[4 * k + 2],
        swizzled(raw)[4 * k + 1] == raw[4 * k + 1],
        swizzled(raw)[4 * k + 2] == raw[4 * k],
        swizzled(raw)[4 * k + 3] == 255,
{
}

} // verus!
