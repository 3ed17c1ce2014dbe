//! What the vertex colours of the weight preview stand for.
use vstd::prelude::*;
use crate::limits;
use crate::mesh::SkinnedMesh;
use crate::mesh;
use crate::scalar::Scalar;
use crate::select::VertexSelection;
use crate::select;

verus! {

/// What the vertex colours encode.
#[derive(Clone, Copy, Debug, PartialEq, Eq, Structural)]
pub enum WeightView {
    /// Distinct colour per dominant bone.
    DominantBone,
    /// Heatmap of the active bone's weight.
    Gradient,
    /// No weight tint.
    Off,
}

/// What the colour of a vertex stands for.
#[derive(Clone, Copy, Debug, PartialEq, Eq, Structural)]
pub enum Tint {
    /// The colour of a dominant bone.
    Bone(u16),
    /// The grey of a vertex without weight.
    Unweighted,
    /// The heat of a weight.
    Heat(Scalar),
    /// The dark grey of a vertex that the bone does not influence.
    Uninfluenced,
    /// White.
    Plain,
}

/// The tint of a vertex by its dominant bone.
pub open spec fn dominant_tint(mesh: SkinnedMesh, v: int) -> Tint {
    match mesh::dominant_of(mesh.influences@[v]@) {
        Some(b) => Tint::Bone(b),
        None => Tint::Unweighted,
    }
}

/// The tint of a vertex by the weight of a bone: that of its first slot that
/// carries weight for the bone.
pub open spec fn gradient_tint(mesh: SkinnedMesh, bone: u16, v: int) -> Tint {
    let set = mesh.influences@[v]@;
    if exists|k: int| 0 <= k < set.len() && mesh::feeds(#[trigger] set[k], bone) {
        Tint::Heat(mesh::weight_for(set, bone, set.len()))
    } else {
        Tint::Uninfluenced
    }
}

/// The tint of a vertex for a view.
pub open spec fn view_tint(mesh: SkinnedMesh, view: WeightView, active: Option<u16>, v: int) -> Tint {
    match view {
        WeightView::DominantBone => dominant_tint(mesh, v),
        WeightView::Gradient => match active {
            Some(b) => gradient_tint(mesh, b, v),
            None => Tint::Plain,
        },
        WeightView::Off => Tint::Plain,
    }
}

/// Tint every vertex by its dominant bone.
pub fn dominant_bone_colors(mesh: &SkinnedMesh) -> (r: Vec<Tint>)
    requires
        mesh.vertices@.len() <= mesh.influences@.len(),
    ensures
        r@ == Seq::new(mesh.vertices@.len(), |v: int| dominant_tint(*mesh, v)),
{
    let mut r: Vec<Tint> = Vec::new();
    let mut v: usize = 0;
    while v < mesh.vertex_count()
        invariant
            v <= mesh.vertices@.len(),
            mesh.vertices@.len() <= mesh.influences@.len(),
            r@.len() == v,
            forall|u: int| 0 <= u < v ==> #[trigger] r@[u] == dominant_tint(*mesh, u),
        decreases mesh.vertices@.len() - v,
    {
        let tint = match mesh.dominant_bone(v) {
            Some(b) => Tint::Bone(b),
            None => Tint::Unweighted,
        };
        r.push(tint);
        v += 1;
    }
    assert(r@ =~= Seq::new(mesh.vertices@.len(), |v: int| dominant_tint(*mesh, v)));
    r
}

proof fn fed_weight_is_positive(set: Seq<mesh::Influence>, bone: u16, n: nat)
    requires
        n <= set.len(),
    ensures
        (exists|k: int| 0 <= k < n && mesh::feeds(#[trigger] set[k], bone))
            <==> Scalar::zero().spec_lt(mesh::weight_for(set, bone, n)),
    decreases n,
{
    if n > 0 {
        fed_weight_is_positive(set, bone, (n - 1) as nat);
        if exists|k: int| 0 <= k < n - 1 && mesh::feeds(#[trigger] set[k], bone) {
            let k = choose|k: int| 0 <= k < n - 1 && mesh::feeds(#[trigger] set[k], bone);
            assert(0 <= k < n && mesh::feeds(set[k], bone));
        } else if mesh::feeds(set[n - 1], bone) {
            assert(0 <= n - 1 < n);
        }
    }
}

/// Tint every vertex by the weight of a bone.
pub fn weight_gradient_colors(mesh: &SkinnedMesh, bone: u16) -> (r: Vec<Tint>)
    requires
        mesh.vertices@.len() <= mesh.influences@.len(),
    ensures
        r@ == Seq::new(mesh.vertices@.len(), |v: int| gradient_tint(*mesh, bone, v)),
{
    let mut r: Vec<Tint> = Vec::new();
    let mut v: usize = 0;
    while v < mesh.vertex_count()
        invariant
            v <= mesh.vertices@.len(),
            mesh.vertices@.len() <= mesh.influences@.len(),
            r@.len() == v,
            forall|u: int| 0 <= u < v ==> #[trigger] r@[u] == gradient_tint(*mesh, bone, u),
        decreases mesh.vertices@.len() - v,
    {
        let w = mesh.current_weight(v, bone);
        proof {
            let set = mesh.influences@[v as int]@;
            fed_weight_is_positive(set, bone, set.len());
        }
        let tint = if w.is_positive() {
            Tint::Heat(w)
        } else {
            Tint::Uninfluenced
        };
        r.push(tint);
        v += 1;
    }
    assert(r@ =~= Seq::new(mesh.vertices@.len(), |v: int| gradient_tint(*mesh, bone, v)));
    r
}

/// Tint every vertex for a view; the active bone matters only to the gradient.
pub fn weight_colors(mesh: &SkinnedMesh, view: WeightView, active_bone: Option<u16>) -> (r: Vec<Tint>)
    requires
        mesh.vertices@.len() <= mesh.influences@.len(),
    ensures
        r@ == Seq::new(mesh.vertices@.len(), |v: int| view_tint(*mesh, view, active_bone, v)),
{
    let r = match view {
        WeightView::DominantBone => dominant_bone_colors(mesh),
        WeightView::Gradient => match active_bone {
            Some(b) => weight_gradient_colors(mesh, b),
            None => plain(mesh.vertex_count()),
        },
        WeightView::Off => plain(mesh.vertex_count()),
    };
    assert(r@ =~= Seq::new(mesh.vertices@.len(), |v: int| view_tint(*mesh, view, active_bone, v)));
    r
}

fn plain(count: usize) -> (r: Vec<Tint>)
    ensures
        r@ == Seq::new(count as nat, |v: int| Tint::Plain),
{
    let mut r: Vec<Tint> = Vec::new();
    let mut v: usize = 0;
    while v < count
        invariant
            v <= count,
            r@ == Seq::new(v as nat, |v: int| Tint::Plain),
        decreases count - v,
    {
        r.push(Tint::Plain);
        assert(r@ =~= Seq::new((v + 1) as nat, |v: int| Tint::Plain));
        v += 1;
    }
    r
}

/// A stretch of the heat ramp.
#[derive(Clone, Copy, Debug, PartialEq, Eq, Structural)]
pub enum HeatBand {
    BlueToCyan,
    CyanToGreen,
    GreenToYellow,
    YellowToRed,
}

/// Where the heat ramp turns: the bit patterns of a quarter, a half and three
/// quarters.
pub const QUARTER_BITS: u32 = 0x3E80_0000;

pub const HALF_BITS: u32 = 0x3F00_0000;

pub const THREE_QUARTERS_BITS: u32 = 0x3F40_0000;

/// The stretch of the ramp that a weight falls into.
pub open spec fn band_of(weight: Scalar) -> HeatBand {
    let t = limits::clamped(weight, Scalar::zero(), Scalar::one());
    if t.spec_lt(Scalar { bits: QUARTER_BITS }) {
        HeatBand::BlueToCyan
    } else if t.spec_lt(Scalar { bits: HALF_BITS }) {
        HeatBand::CyanToGreen
    } else if t.spec_lt(Scalar { bits: THREE_QUARTERS_BITS }) {
        HeatBand::GreenToYellow
    } else {
        HeatBand::YellowToRed
    }
}

/// Place a weight on the heat ramp: the weight within zero and one, and its
/// stretch.
pub fn heat_band(weight: Scalar) -> (r: (Scalar, HeatBand))
    ensures
        r.0 == limits::clamped(weight, Scalar::zero(), Scalar::one()),
        r.1 == band_of(weight),
{
    let t = limits::clamp_number(weight, Scalar::zero(), Scalar::one());
    let band = if t.less(Scalar::from_bits(QUARTER_BITS)) {
        HeatBand::BlueToCyan
    } else if t.less(Scalar::from_bits(HALF_BITS)) {
        HeatBand::CyanToGreen
    } else if t.less(Scalar::from_bits(THREE_QUARTERS_BITS)) {
        HeatBand::GreenToYellow
    } else {
        HeatBand::YellowToRed
    };
    (t, band)
}

/// The place of a stretch on the ramp.
pub open spec fn band_number(band: HeatBand) -> int {
    match band {
        HeatBand::BlueToCyan => 0,
        HeatBand::CyanToGreen => 1,
        HeatBand::GreenToYellow => 2,
        HeatBand::YellowToRed => 3,
    }
}

/// A greater weight is never colder.
pub proof fn heat_ascends(a: Scalar, b: Scalar)
    requires
        a.spec_le(b),
    ensures
        band_number(band_of(a)) <= band_number(band_of(b)),
{
}

// ── colour helpers ────────────────────────────────────────────────────────────

/// The channels of a colour by the sixth of the hue circle that it lies in: its
/// value `v`, its least channel `p`, and a falling (`q`) or rising (`t`) one.
pub open spec fn hue_channels(sixth: int, v: Scalar, p: Scalar, q: Scalar, t: Scalar) -> Seq<Scalar> {
    if sixth == 0 {
        seq![v, t, p]
    } else if sixth == 1 {
        seq![q, v, p]
    } else if sixth == 2 {
        seq![p, v, t]
    } else if sixth == 3 {
        seq![p, q, v]
    } else if sixth == 4 {
        seq![t, p, v]
    } else {
        seq![v, p, q]
    }
}

/// Red, green and blue of a colour from its value and its other channels.
pub fn hsv_to_rgb(sixth: u32, v: Scalar, p: Scalar, q: Scalar, t: Scalar) -> (r: [Scalar; 3])
    ensures
        r@ == hue_channels(sixth as int, v, p, q, t),
{
    let r = match sixth {
        0 => [v, t, p],
        1 => [q, v, p],
        2 => [p, v, t],
        3 => [p, q, v],
        4 => [t, p, v],
        _ => [v, p, q],
    };
    assert(r@ =~= hue_channels(sixth as int, v, p, q, t));
    r
}

/// A colour after blending: the blended channels, and the opacity as it was.
pub open spec fn blended_color(color: Seq<Scalar>, blend: Seq<Scalar>) -> Seq<Scalar> {
    seq![blend[0], blend[1], blend[2], color[3]]
}

/// Give the selected vertices their blended colours; the others keep theirs,
/// and selected vertices without a colour are passed over.
pub fn blend_selection(
    colors: &mut Vec<[Scalar; 4]>,
    sel: &VertexSelection,
    blended: &Vec<[Scalar; 3]>,
)
    requires
        blended@.len() == old(colors)@.len(),
    ensures
        final(colors)@.len() == old(colors)@.len(),
        forall|v: int|
            0 <= v < old(colors)@.len() ==> if select::is_selected(sel@, v) {
                (#[trigger] final(colors)@[v])@ == blended_color(
                    old(colors)@[v]@,
                    blended@[v]@,
                )
            } else {
                final(colors)@[v] == old(colors)@[v]
            },
{
    let ghost before = colors@;
    let count: usize = colors.len();
    let mut v: usize = 0;
    while v < count
        invariant
            v <= count,
            count == before.len(),
            colors@.len() == count,
            blended@.len() == count,
            forall|j: int| v <= j < count ==> #[trigger] colors@[j] == before[j],
            forall|j: int|
                0 <= j < v ==> if select::is_selected(sel@, j) {
                    (#[trigger] colors@[j])@ == blended_color(before[j]@, blended@[j]@)
                } else {
                    colors@[j] == before[j]
                },
        decreases count - v,
    {
        if sel.contains(v) {
            let mixed: [Scalar; 4] = [blended[v][0], blended[v][1], blended[v][2], colors[v][3]];
            assert(mixed@ =~= blended_color(before[v as int]@, blended@[v as int]@));
            colors[v] = mixed;
        }
        v += 1;
    }
}

/// In the view by dominant bone a vertex is grey exactly if no slot carries
/// weight; otherwise it has the colour of a bone that none of its bones
/// outweighs.
pub proof fn dominant_tints_show_the_heaviest_bone(mesh: SkinnedMesh, v: int)
    ensures
        dominant_tint(mesh, v) == Tint::Unweighted <==> !mesh::has_weight(mesh.influences@[v]@),
        dominant_tint(mesh, v) matches Tint::Bone(b) ==> exists|k: int|
            0 <= k < 4 && (#[trigger] mesh.influences@[v]@[k]).bone == b
                && mesh.influences@[v]@[k].weighted() && forall|j: int|
                0 <= j < 4 && !mesh.influences@[v]@[j].weight.nan() ==> (
                #[trigger] mesh.influences@[v]@[j]).weight.spec_le(mesh.influences@[v]@[k].weight),
        dominant_tint(mesh, v) is Bone || dominant_tint(mesh, v) is Unweighted,
{
    mesh::dominant_bone_has_the_heaviest_slot(mesh.influences@[v]@);
}

/// In the gradient a vertex shows the weight of the first slot that carries
/// weight for the bone; without such a slot it is dark.
pub proof fn gradient_tints_show_the_weight(mesh: SkinnedMesh, bone: u16, v: int, k: int)
    requires
        0 <= k <= 4,
        forall|j: int|
            0 <= j < k ==> (#[trigger] mesh.influences@[v]@[j]).bone != bone
                || !mesh.influences@[v]@[j].weighted(),
    ensures
        k == 4 ==> gradient_tint(mesh, bone, v) == Tint::Uninfluenced,
        k < 4 && mesh.influences@[v]@[k].bone == bone && mesh.influences@[v]@[k].weighted()
            ==> gradient_tint(mesh, bone, v) == Tint::Heat(mesh.influences@[v]@[k].weight),
{
    let set = mesh.influences@[v]@;
    mesh::first_slot_gives_the_weight(set, bone, k, set.len());
    if k < 4 && set[k].bone == bone && set[k].weighted() {
        assert(mesh::feeds(set[k], bone));
    }
}

/// Only the gradient regards the active bone, and without one, as with the view
/// off, vertices stay white; every other view shows the weights.
pub proof fn views_differ(mesh: SkinnedMesh, bone: u16, active: Option<u16>, v: int)
    ensures
        view_tint(mesh, WeightView::Off, active, v) == Tint::Plain,
        view_tint(mesh, WeightView::Gradient, None, v) == Tint::Plain,
        view_tint(mesh, WeightView::Gradient, Some(bone), v) is Heat || view_tint(
            mesh,
            WeightView::Gradient,
            Some(bone),
            v,
        ) is Uninfluenced,
        view_tint(mesh, WeightView::DominantBone, active, v) == view_tint(
            mesh,
            WeightView::DominantBone,
            None,
            v,
        ),
        view_tint(mesh, WeightView::DominantBone, active, v) is Bone || view_tint(
            mesh,
            WeightView::DominantBone,
            active,
            v,
        ) is Unweighted,
{
}

/// The four stretches of the ramp meet at a quarter, a half and three quarters;
/// weights below zero are coldest and weights above one hottest.
pub proof fn stretches_meet_at_quarters(weight: Scalar)
    requires
        !weight.nan(),
    ensures
        band_of(weight) == HeatBand::BlueToCyan <==> weight.spec_lt(Scalar { bits: 0x3E80_0000 }),
        band_of(weight) == HeatBand::CyanToGreen <==> (Scalar { bits: 0x3E80_0000 }).spec_le(weight)
            && weight.spec_lt(Scalar { bits: 0x3F00_0000 }),
        band_of(weight) == HeatBand::GreenToYellow <==> (Scalar { bits: 0x3F00_0000 }).spec_le(
            weight,
        ) && weight.spec_lt(Scalar { bits: 0x3F40_0000 }),
        band_of(weight) == HeatBand::YellowToRed <==> (Scalar { bits: 0x3F40_0000 }).spec_le(weight),
{
}

/// A third of the hue circle further on the channels are those of before,
/// turned by one: what was red is green, what was green blue.
pub proof fn hues_turn_by_thirds(sixth: int, v: Scalar, p: Scalar, q: Scalar, t: Scalar)
    requires
        0 <= sixth < 4,
    ensures
        ({
            let here = hue_channels(sixth, v, p, q, t);
            let there = hue_channels(sixth + 2, v, p, q, t);
            &&& here.len() == 3 && there.len() == 3
            &&& there[1] == here[0] && there[2] == here[1] && there[0] == here[2]
        }),
{
}

/// The hue circle has no seam: where a rising channel has risen to the value or
/// a falling one has fallen to the least, one sixth ends as the next begins.
/// It begins at red, and a third further on at green.
pub proof fn hues_have_no_seam(v: Scalar, p: Scalar, q: Scalar, t: Scalar)
    ensures
        hue_channels(0, v, p, q, p) == seq![v, p, p],
        hue_channels(2, v, p, q, p) == seq![p, v, p],
        hue_channels(4, v, p, q, p) == seq![p, p, v],
        hue_channels(0, v, p, q, v) == hue_channels(1, v, p, v, t),
        hue_channels(1, v, p, p, t) == hue_channels(2, v, p, q, p),
        hue_channels(2, v, p, q, v) == hue_channels(3, v, p, v, t),
        hue_channels(3, v, p, p, t) == hue_channels(4, v, p, q, p),
        hue_channels(4, v, p, q, v) == hue_channels(5, v, p, v, t),
        hue_channels(5, v, p, p, t) == hue_channels(0, v, p, q, p),
{
}

/// In the even sixths the rising channel is shown and in the odd ones the
/// falling one, beside the value and the least.
pub proof fn hues_rise_and_fall(sixth: int, v: Scalar, p: Scalar, q: Scalar, t: Scalar)
    requires
        0 <= sixth < 6,
    ensures
        hue_channels(sixth, v, p, q, t).to_multiset() == seq![
            v,
            p,
            if sixth % 2 == 0 { t } else { q },
        ].to_multiset(),
{
    let x = if sixth % 2 == 0 { t } else { q };
    let all = hue_channels(sixth, v, p, q, t);
    assert(sixth == 0 || sixth == 1 || sixth == 2 || sixth == 3 || sixth == 4 || sixth == 5);
    let plain = Seq::<Scalar>::empty();
    broadcast use vstd::seq_lib::group_to_multiset_ensures;

    assert(seq![v, p, x] =~= plain.push(v).push(p).push(x));
    assert(all =~= plain.push(all[0]).push(all[1]).push(all[2]));
    assert(all.to_multiset() =~= seq![v, p, x].to_multiset());
}

/// Blending changes the colour only: its channels become the blended ones and
/// the opacity stays, so blending again with the same channels changes nothing.
pub proof fn blending_keeps_the_opacity(color: Seq<Scalar>, blend: Seq<Scalar>)
    requires
        color.len() == 4,
        blend.len() == 3,
    ensures
        blended_color(color, blend).take(3) == blend,
        blended_color(color, blend).len() == 4,
        blended_color(color, blend)[3] == color[3],
        blended_color(color, color.take(3)) == color,
{
    assert(blended_color(color, blend).take(3) =~= blend);
    assert(blended_color(color, color.take(3)) =~= color);
}

} // verus!
