//! Weight assignment over a selection of vertices: rigid bind, what a paint
//! dab and a smoothing pass work on, mirroring, and pruning.
use std::collections::HashMap;
use vstd::prelude::*;
use vstd::string::StringExecFns;
use crate::listing;
use crate::mesh::{Influence, RigVertex, SkinnedMesh, VertexInfluences, MAX_INFLUENCES};
use crate::mesh;
use crate::scalar::Scalar;
use crate::select::VertexSelection;
use crate::select;
use crate::skeleton::Skeleton;
use crate::text;

verus! {

// ── bind and paint ────────────────────────────────────────────────────────────

/// The influences of a vertex bound rigidly to a bone.
pub open spec fn rigid(bone: u16) -> Seq<Influence> {
    seq![
        Influence { bone, weight: Scalar::one() },
        Influence::none(),
        Influence::none(),
        Influence::none(),
    ]
}

/// Every selected vertex has influences.
pub open spec fn selection_fits(mask: Seq<bool>, mesh: SkinnedMesh) -> bool {
    forall|k: int|
        0 <= k < select::selected_numbers(mask).len() ==> (#[trigger] select::selected_numbers(
            mask,
        )[k]) < mesh.influences@.len()
}

/// Bind every selected vertex rigidly to `bone`.
pub fn bind_rigid(mesh: &mut SkinnedMesh, sel: &VertexSelection, bone: u16)
    requires
        selection_fits(sel@, *old(mesh)),
    ensures
        final(mesh).same_shape(*old(mesh)),
        final(mesh).influences@.len() == old(mesh).influences@.len(),
        forall|v: int|
            0 <= v < old(mesh).influences@.len() ==> if select::names(
                select::selected_numbers(sel@),
                v,
            ) {
                (#[trigger] final(mesh).influences@[v])@ == rigid(bone)
            } else {
                final(mesh).influences@[v] == old(mesh).influences@[v]
            },
{
    let list = sel.iter();
    let mut k: usize = 0;
    while k < list.len()
        invariant
            k <= list@.len(),
            list@ == select::selected_numbers(sel@),
            forall|j: int| 0 <= j < list@.len() ==> (#[trigger] list@[j]) < old(mesh).influences@.len(),
            mesh.same_shape(*old(mesh)),
            mesh.influences@.len() == old(mesh).influences@.len(),
            forall|v: int|
                0 <= v < old(mesh).influences@.len() ==> if select::names(list@.take(k as int), v) {
                    (#[trigger] mesh.influences@[v])@ == rigid(bone)
                } else {
                    mesh.influences@[v] == old(mesh).influences@[v]
                },
        decreases list@.len() - k,
    {
        assert(list@[k as int] < old(mesh).influences@.len());
        mesh.set_rigid(list[k] as usize, bone);
        proof {
            names_extended(list@, k as int);
        }
        k += 1;
    }
    assert(list@.take(k as int) =~= list@);
}

proof fn names_extended(list: Seq<u32>, k: int)
    requires
        0 <= k < list.len(),
    ensures
        forall|v: int|
            #[trigger] select::names(list.take(k + 1), v) <==> select::names(list.take(k), v) || v
                == list[k],
{
    let before = list.take(k);
    let after = list.take(k + 1);
    assert forall|v: int| #[trigger] select::names(after, v) <==> select::names(before, v) || v
        == list[k] by {
        if select::names(before, v) {
            let j = choose|j: int| 0 <= j < before.len() && #[trigger] before[j] == v;
            assert(after[j] == v);
        }
        assert(after[k] == list[k]);
        if select::names(after, v) && v != list[k] {
            let j = choose|j: int| 0 <= j < after.len() && #[trigger] after[j] == v;
            assert(before[j] == v);
        }
    }
}

/// How strongly a dab applies to a vertex: fully, unless a falloff says less.
pub open spec fn dab_scale(falloff: Option<Map<u32, Scalar>>, v: u32) -> Scalar {
    match falloff {
        Some(map) => if map.dom().contains(v) {
            map[v]
        } else {
            Scalar::one()
        },
        None => Scalar::one(),
    }
}

/// A falloff table as a map.
pub open spec fn falloff_map(falloff: Option<&HashMap<u32, Scalar>>) -> Option<Map<u32, Scalar>> {
    match falloff {
        Some(map) => Some(map@),
        None => None,
    }
}

/// The vertices a dab paints, each with the factor for its amount. `falloff`
/// gives factors by vertex, such as the radial falloff of a brush.
pub fn paint_targets(sel: &VertexSelection, falloff: Option<&HashMap<u32, Scalar>>) -> (r: Vec<
    (u32, Scalar),
>)
    ensures
        r@ == select::selected_numbers(sel@).map_values(
            |v: u32| (v, dab_scale(falloff_map(falloff), v)),
        ),
{
    broadcast use vstd::std_specs::hash::group_hash_axioms;

    let ghost scaled = |v: u32| (v, dab_scale(falloff_map(falloff), v));
    let list = sel.iter();
    let mut r: Vec<(u32, Scalar)> = Vec::new();
    let mut k: usize = 0;
    while k < list.len()
        invariant
            k <= list@.len(),
            list@ == select::selected_numbers(sel@),
            scaled == (|v: u32| (v, dab_scale(falloff_map(falloff), v))),
            r@ =~= list@.take(k as int).map_values(scaled),
        decreases list@.len() - k,
    {
        let v: u32 = list[k];
        let mut scale = Scalar::one();
        if let Some(map) = falloff {
            if let Some(s) = map.get(&v) {
                scale = *s;
            }
        }
        r.push((v, scale));
        assert(r@ =~= list@.take(k + 1).map_values(scaled));
        k += 1;
    }
    assert(list@.take(k as int) =~= list@);
    r
}

// ── smoothing ─────────────────────────────────────────────────────────────────

/// The weights that several slots give one bone, in the order they were met.
#[derive(Clone, Debug, PartialEq, Eq)]
pub struct BoneShare {
    pub bone: u16,
    pub weights: Vec<Scalar>,
}

/// The slots that carry weight.
pub open spec fn weighted_of(set: Seq<Influence>) -> Seq<Influence> {
    set.filter(|s: Influence| s.weighted())
}

/// The slots that carry weight, of the first `n` of some vertices.
pub open spec fn neighbour_slots(
    influences: Seq<VertexInfluences>,
    neighbours: Seq<u32>,
    n: nat,
) -> Seq<Influence>
    decreases n,
{
    if n == 0 {
        Seq::empty()
    } else {
        neighbour_slots(influences, neighbours, (n - 1) as nat) + weighted_of(
            influences[neighbours[n - 1] as int]@,
        )
    }
}

/// The weights that slots give a bone, in slot order.
pub open spec fn weights_for(slots: Seq<Influence>, bone: u16) -> Seq<Scalar> {
    slots.filter(|s: Influence| s.bone == bone).map_values(|s: Influence| s.weight)
}

/// Whether shares group slots by bone: one share per bone that occurs, with all
/// its weights in slot order.
pub open spec fn groups(shares: Seq<BoneShare>, slots: Seq<Influence>) -> bool {
    &&& forall|i: int, j: int|
        0 <= i < j < shares.len() ==> shares[i].bone != shares[j].bone
    &&& forall|i: int|
        0 <= i < shares.len() ==> (#[trigger] shares[i]).weights@ == weights_for(
            slots,
            shares[i].bone,
        ) && shares[i].weights@.len() > 0
    &&& forall|k: int| 0 <= k < slots.len() ==> shared(shares, (#[trigger] slots[k]).bone)
}

/// Whether some share belongs to a bone.
pub open spec fn shared(shares: Seq<BoneShare>, bone: u16) -> bool {
    exists|i: int| 0 <= i < shares.len() && (#[trigger] shares[i]).bone == bone
}

fn push_weighted(out: &mut Vec<Influence>, set: &VertexInfluences)
    ensures
        final(out)@ == old(out)@ + weighted_of(set@),
{
    let ghost keep = |s: Influence| s.weighted();
    let mut k: usize = 0;
    proof {
        reveal(Seq::filter);
        assert(set@.take(0) =~= Seq::empty());
        assert(out@ =~= old(out)@ + set@.take(0).filter(keep));
    }
    while k < MAX_INFLUENCES
        invariant
            k <= MAX_INFLUENCES,
            set@.len() == MAX_INFLUENCES,
            keep == (|s: Influence| s.weighted()),
            out@ == old(out)@ + set@.take(k as int).filter(keep),
        decreases MAX_INFLUENCES - k,
    {
        let slot = set[k];
        proof {
            reveal(Seq::filter);
            assert(set@.take(k + 1).drop_last() =~= set@.take(k as int));
            assert(set@.take(k + 1).last() == slot);
        }
        if slot.weight.is_positive() {
            out.push(slot);
        }
        assert(out@ =~= old(out)@ + set@.take(k + 1).filter(keep));
        k += 1;
    }
    assert(set@.take(k as int) =~= set@);
}

proof fn weights_for_pushed(slots: Seq<Influence>, slot: Influence, bone: u16)
    ensures
        weights_for(slots.push(slot), bone) == (if slot.bone == bone {
            weights_for(slots, bone).push(slot.weight)
        } else {
            weights_for(slots, bone)
        }),
{
    reveal(Seq::filter);
    assert(slots.push(slot).drop_last() =~= slots);
    assert(weights_for(slots.push(slot), bone) =~= (if slot.bone == bone {
        weights_for(slots, bone).push(slot.weight)
    } else {
        weights_for(slots, bone)
    }));
}

proof fn unshared_bone_has_no_weights(shares: Seq<BoneShare>, slots: Seq<Influence>, bone: u16)
    requires
        forall|k: int| 0 <= k < slots.len() ==> shared(shares, (#[trigger] slots[k]).bone),
        !shared(shares, bone),
    ensures
        weights_for(slots, bone).len() == 0,
    decreases slots.len(),
{
    reveal(Seq::filter);
    if slots.len() > 0 {
        let rest = slots.drop_last();
        assert forall|k: int| 0 <= k < rest.len() implies shared(shares, (#[trigger] rest[k]).bone) by {
            assert(rest[k] == slots[k]);
        }
        unshared_bone_has_no_weights(shares, rest, bone);
        assert(slots =~= rest.push(slots.last()));
        assert(shared(shares, slots[slots.len() - 1].bone));
        weights_for_pushed(rest, slots.last(), bone);
    }
}

/// Group slots by bone, so that the weights of each bone can be summed.
pub fn group_by_bone(slots: &Vec<Influence>) -> (shares: Vec<BoneShare>)
    ensures
        groups(shares@, slots@),
{
    let mut shares: Vec<BoneShare> = Vec::new();
    let mut n: usize = 0;
    while n < slots.len()
        invariant
            n <= slots@.len(),
            groups(shares@, slots@.take(n as int)),
        decreases slots@.len() - n,
    {
        let slot = slots[n];
        let ghost seen = slots@.take(n as int);
        let ghost before = shares@;
        let mut at: usize = 0;
        while at < shares.len() && shares[at].bone != slot.bone
            invariant
                at <= shares@.len(),
                shares@ == before,
                forall|i: int| 0 <= i < at ==> (#[trigger] shares@[i]).bone != slot.bone,
            decreases shares@.len() - at,
        {
            at += 1;
        }
        let known = at < shares.len();
        if known {
            shares[at].weights.push(slot.weight);
        } else {
            let mut weights: Vec<Scalar> = Vec::new();
            weights.push(slot.weight);
            shares.push(BoneShare { bone: slot.bone, weights });
        }
        proof {
            let next = slots@.take(n + 1);
            assert(next =~= seen.push(slot));
            if !known {
                assert(!shared(before, slot.bone));
                unshared_bone_has_no_weights(before, seen, slot.bone);
                assert(weights_for(seen, slot.bone) =~= Seq::empty());
            }
            assert forall|i: int| 0 <= i < shares@.len() implies (#[trigger] shares@[i]).weights@
                == weights_for(next, shares@[i].bone) && shares@[i].weights@.len() > 0 by {
                weights_for_pushed(seen, slot, shares@[i].bone);
                if i < before.len() {
                    assert(before[i].weights@ == weights_for(seen, before[i].bone));
                    if known && i != at {
                        assert(before[i].bone != before[at as int].bone);
                    }
                } else {
                    assert(shares@[i].weights@ =~= weights_for(next, slot.bone));
                }
            }
            assert forall|i: int, j: int| 0 <= i < j < shares@.len() implies shares@[i].bone
                != shares@[j].bone by {
                if j < before.len() {
                    assert(before[i].bone != before[j].bone);
                } else {
                    assert(before[i].bone != slot.bone);
                }
            }
            assert forall|k: int| 0 <= k < next.len() implies shared(
                shares@,
                (#[trigger] next[k]).bone,
            ) by {
                if k < n {
                    assert(next[k] == seen[k]);
                    let i = choose|i: int|
                        0 <= i < before.len() && (#[trigger] before[i]).bone == seen[k].bone;
                    assert(shares@[i].bone == seen[k].bone);
                } else {
                    assert(shares@[at as int].bone == slot.bone);
                }
            }
        }
        n += 1;
    }
    assert(slots@.take(n as int) =~= slots@);
    shares
}

/// What one smoothing pass reads for a vertex.
#[derive(Clone, Debug, PartialEq, Eq)]
pub struct SmoothStep {
    pub vertex: u32,
    /// Number of neighbours.
    pub neighbour_count: usize,
    /// What the neighbours give each bone.
    pub neighbours: Vec<BoneShare>,
    /// What the vertex itself gives each bone.
    pub own: Vec<BoneShare>,
}

/// Whether a smoothing pass touches a vertex: it has neighbours, and one of
/// them carries weight.
pub open spec fn smoothable(
    graph: Seq<Seq<u32>>,
    influences: Seq<VertexInfluences>,
    v: u32,
) -> bool {
    neighbour_slots(influences, graph[v as int], graph[v as int].len()).len() > 0
}

/// Whether a step holds what a pass reads for its vertex.
pub open spec fn step_reads(
    step: SmoothStep,
    graph: Seq<Seq<u32>>,
    influences: Seq<VertexInfluences>,
) -> bool {
    let list = graph[step.vertex as int];
    &&& step.neighbour_count == list.len()
    &&& groups(step.neighbours@, neighbour_slots(influences, list, list.len()))
    &&& groups(step.own@, weighted_of(influences[step.vertex as int]@))
}

/// Every vertex of the graph and every neighbour has influences.
pub open spec fn graph_fits(graph: Seq<Seq<u32>>, influences: Seq<VertexInfluences>) -> bool {
    &&& graph.len() <= influences.len()
    &&& forall|v: int, k: int|
        0 <= v < graph.len() && 0 <= k < graph[v].len() ==> (#[trigger] graph[v][k])
            < influences.len()
}

/// Read what one smoothing pass needs, for every selected vertex that it
/// touches, in ascending order. All steps read the influences as they are
/// before the pass, so the pass does not depend on the order of its steps.
pub fn smooth_steps(mesh: &mut SkinnedMesh, sel: &VertexSelection) -> (steps: Vec<SmoothStep>)
    requires
        old(mesh).adjacency_ready(),
        select::seeds_in_range(old(mesh).neighbours(), sel@),
        graph_fits(old(mesh).neighbours(), old(mesh).influences@),
    ensures
        final(mesh).vertices == old(mesh).vertices,
        final(mesh).indices == old(mesh).indices,
        final(mesh).influences == old(mesh).influences,
        final(mesh).cached() == Some(old(mesh).neighbours()),
        ({
            let graph = old(mesh).neighbours();
            let influences = old(mesh).influences@;
            let touched = select::selected_numbers(sel@).filter(
                |v: u32| smoothable(graph, influences, v),
            );
            &&& steps@.len() == touched.len()
            &&& forall|i: int|
                0 <= i < steps@.len() ==> (#[trigger] steps@[i]).vertex == touched[i]
                    && step_reads(steps@[i], graph, influences)
        }),
{
    let ghost graph = mesh.neighbours();
    let ghost influences = mesh.influences@;
    let ghost keep = |v: u32| smoothable(graph, influences, v);
    let _ = mesh.adjacency();
    let targets = sel.iter();
    let mut steps: Vec<SmoothStep> = Vec::new();
    let mut t: usize = 0;
    proof {
        reveal(Seq::filter);
        assert(targets@.take(0) =~= Seq::empty());
    }
    while t < targets.len()
        invariant
            t <= targets@.len(),
            targets@ == select::selected_numbers(sel@),
            select::seeds_in_range(graph, sel@),
            graph_fits(graph, influences),
            mesh.cached() == Some(graph),
            mesh.influences@ == influences,
            keep == (|v: u32| smoothable(graph, influences, v)),
            steps@.len() == targets@.take(t as int).filter(keep).len(),
            forall|i: int|
                0 <= i < steps@.len() ==> (#[trigger] steps@[i]).vertex == targets@.take(
                    t as int,
                ).filter(keep)[i] && step_reads(steps@[i], graph, influences),
        decreases targets@.len() - t,
    {
        let v: u32 = targets[t];
        assert(select::selected_numbers(sel@)[t as int] < graph.len());
        let adj = mesh.adjacency.as_ref().unwrap();
        assert(mesh::graph_of(adj@) == graph);
        assert(graph[v as int] == adj@[v as int]@);
        let ghost list = graph[v as int];
        let count: usize = adj[v as usize].len();
        let mut slots: Vec<Influence> = Vec::new();
        let mut k: usize = 0;
        while k < count
            invariant
                k <= count,
                v < adj@.len(),
                count == list.len(),
                list == adj@[v as int]@,
                mesh.influences@ == influences,
                forall|j: int| 0 <= j < list.len() ==> (#[trigger] list[j]) < influences.len(),
                slots@ == neighbour_slots(influences, list, k as nat),
            decreases count - k,
        {
            let n: u32 = adj[v as usize][k];
            assert(list[k as int] < influences.len());
            push_weighted(&mut slots, &mesh.influences[n as usize]);
            k += 1;
        }
        proof {
            reveal(Seq::filter);
            assert(targets@.take(t + 1).drop_last() =~= targets@.take(t as int));
            assert(targets@.take(t + 1).last() == v);
            assert(keep(v) == (slots@.len() > 0));
        }
        if slots.len() > 0 {
            let neighbours = group_by_bone(&slots);
            let mut mine: Vec<Influence> = Vec::new();
            push_weighted(&mut mine, &mesh.influences[v as usize]);
            assert(mine@ =~= weighted_of(influences[v as int]@));
            let own = group_by_bone(&mine);
            let ghost before = steps@;
            steps.push(SmoothStep { vertex: v, neighbour_count: count, neighbours, own });
            assert forall|i: int| 0 <= i < steps@.len() implies (#[trigger] steps@[i]).vertex
                == targets@.take(t + 1).filter(keep)[i] && step_reads(
                steps@[i],
                graph,
                influences,
            ) by {
                if i < before.len() {
                    assert(steps@[i] == before[i]);
                }
            }
        }
        t += 1;
    }
    assert(targets@.take(t as int) =~= targets@);
    steps
}

/// Reduce summed weights to the strongest influences; sums that are not above
/// zero are dropped.
pub fn top_influences(sums: &Vec<Influence>) -> (r: VertexInfluences)
    ensures
        r@ == mesh::strongest_of(weighted_of(sums@)),
{
    let ghost keep = |s: Influence| s.weighted();
    let mut kept: Vec<Influence> = Vec::new();
    let mut k: usize = 0;
    proof {
        reveal(Seq::filter);
        assert(sums@.take(0) =~= Seq::empty());
    }
    while k < sums.len()
        invariant
            k <= sums@.len(),
            keep == (|s: Influence| s.weighted()),
            kept@ == sums@.take(k as int).filter(keep),
        decreases sums@.len() - k,
    {
        proof {
            reveal(Seq::filter);
            assert(sums@.take(k + 1).drop_last() =~= sums@.take(k as int));
            assert(sums@.take(k + 1).last() == sums@[k as int]);
        }
        if sums[k].weight.is_positive() {
            kept.push(sums[k]);
        }
        k += 1;
    }
    assert(sums@.take(k as int) =~= sums@);
    mesh::strongest_influences(&kept)
}

// ── mirror ────────────────────────────────────────────────────────────────────

/// A name with one suffix exchanged for another, if it ends in the first.
pub open spec fn exchanged(name: Seq<char>, from: Seq<char>, to: Seq<char>) -> Option<Seq<char>> {
    if text::ends_in(name, from) {
        Some(text::without_last(name, from.len()) + to)
    } else {
        None
    }
}

/// A name with either suffix of a pair exchanged for the other.
pub open spec fn pair_exchanged(name: Seq<char>, a: Seq<char>, b: Seq<char>) -> Option<Seq<char>> {
    match exchanged(name, a, b) {
        Some(m) => Some(m),
        None => exchanged(name, b, a),
    }
}

/// The left-right mirror of a bone name: the first side suffix that fits is
/// exchanged for its counterpart. Centre bones have none.
pub open spec fn mirror_name(name: Seq<char>) -> Option<Seq<char>> {
    if let Some(m) = pair_exchanged(name, "_L"@, "_R"@) {
        Some(m)
    } else if let Some(m) = pair_exchanged(name, "_l"@, "_r"@) {
        Some(m)
    } else if let Some(m) = pair_exchanged(name, ".L"@, ".R"@) {
        Some(m)
    } else if let Some(m) = pair_exchanged(name, ".l"@, ".r"@) {
        Some(m)
    } else if let Some(m) = pair_exchanged(name, "Left"@, "Right"@) {
        Some(m)
    } else {
        pair_exchanged(name, "left"@, "right"@)
    }
}

fn exchange(chars: &Vec<char>, from: &str, to: &str) -> (r: Option<String>)
    ensures
        match r {
            Some(m) => exchanged(chars@, from@, to@) == Some(m@),
            None => exchanged(chars@, from@, to@) is None,
        },
{
    let suffix = text::chars_of(from);
    if text::has_suffix(chars, &suffix) {
        let mut m = text::text_of(chars, 0, chars.len() - suffix.len());
        m.append(to);
        Some(m)
    } else {
        None
    }
}

fn exchange_pair(chars: &Vec<char>, a: &str, b: &str) -> (r: Option<String>)
    ensures
        match r {
            Some(m) => pair_exchanged(chars@, a@, b@) == Some(m@),
            None => pair_exchanged(chars@, a@, b@) is None,
        },
{
    match exchange(chars, a, b) {
        Some(m) => Some(m),
        None => exchange(chars, b, a),
    }
}

/// The name of a bone's left-right mirror, if the name follows a known
/// convention.
pub fn mirror_bone_name(name: &str) -> (r: Option<String>)
    ensures
        match r {
            Some(m) => mirror_name(name@) == Some(m@),
            None => mirror_name(name@) is None,
        },
{
    let chars = text::chars_of(name);
    if let Some(m) = exchange_pair(&chars, "_L", "_R") {
        return Some(m);
    }
    if let Some(m) = exchange_pair(&chars, "_l", "_r") {
        return Some(m);
    }
    if let Some(m) = exchange_pair(&chars, ".L", ".R") {
        return Some(m);
    }
    if let Some(m) = exchange_pair(&chars, ".l", ".r") {
        return Some(m);
    }
    if let Some(m) = exchange_pair(&chars, "Left", "Right") {
        return Some(m);
    }
    exchange_pair(&chars, "left", "right")
}

proof fn exchanged_ends(name: Seq<char>, from: Seq<char>, to: Seq<char>)
    requires
        exchanged(name, from, to) is Some,
    ensures
        text::ends_in(exchanged(name, from, to)->0, to),
        exchanged(exchanged(name, from, to)->0, to, from) == Some(name),
{
    let stem = text::without_last(name, from.len());
    let m = stem + to;
    assert(m.subrange(m.len() - to.len(), m.len() as int) =~= to);
    assert(text::without_last(m, to.len()) =~= stem);
    assert(name =~= stem + name.subrange(name.len() - from.len(), name.len() as int));
}

proof fn ending_chars(name: Seq<char>, suffix: Seq<char>)
    requires
        text::ends_in(name, suffix),
    ensures
        suffix.len() >= 1 ==> name[name.len() - 1] == suffix[suffix.len() - 1],
        suffix.len() >= 2 ==> name[name.len() - 2] == suffix[suffix.len() - 2],
        suffix.len() >= 4 ==> name[name.len() - 4] == suffix[suffix.len() - 4],
        suffix.len() >= 5 ==> name[name.len() - 5] == suffix[suffix.len() - 5],
{
    let tail = name.subrange(name.len() - suffix.len(), name.len() as int);
    assert(tail == suffix);
    let n = suffix.len() as int;
    if n >= 1 {
        assert(tail[n - 1] == name[name.len() - 1]);
    }
    if n >= 2 {
        assert(tail[n - 2] == name[name.len() - 2]);
    }
    if n >= 4 {
        assert(tail[n - 4] == name[name.len() - 4]);
    }
    if n >= 5 {
        assert(tail[n - 5] == name[name.len() - 5]);
    }
}

/// The suffix pairs, by number.
spec fn suffix(pair: int, second: bool) -> Seq<char> {
    if pair == 0 {
        if second { "_R"@ } else { "_L"@ }
    } else if pair == 1 {
        if second { "_r"@ } else { "_l"@ }
    } else if pair == 2 {
        if second { ".R"@ } else { ".L"@ }
    } else if pair == 3 {
        if second { ".r"@ } else { ".l"@ }
    } else if pair == 4 {
        if second { "Right"@ } else { "Left"@ }
    } else {
        if second { "right"@ } else { "left"@ }
    }
}

proof fn suffixes_exclude_each_other(name: Seq<char>, p: int, s: bool, q: int, t: bool)
    requires
        0 <= p < 6,
        0 <= q < 6,
        text::ends_in(name, suffix(p, s)),
        text::ends_in(name, suffix(q, t)),
    ensures
        p == q,
        s == t,
{
    reveal_strlit("_L");
    reveal_strlit("_R");
    reveal_strlit("_l");
    reveal_strlit("_r");
    reveal_strlit(".L");
    reveal_strlit(".R");
    reveal_strlit(".l");
    reveal_strlit(".r");
    reveal_strlit("Left");
    reveal_strlit("Right");
    reveal_strlit("left");
    reveal_strlit("right");
    ending_chars(name, suffix(p, s));
    ending_chars(name, suffix(q, t));
}

proof fn mirror_name_at(name: Seq<char>, p: int, s: bool)
    requires
        0 <= p < 6,
        text::ends_in(name, suffix(p, s)),
    ensures
        mirror_name(name) == exchanged(name, suffix(p, s), suffix(p, !s)),
{
    assert forall|q: int, t: bool| 0 <= q < 6 && (q != p || t != s) implies !text::ends_in(
        name,
        #[trigger] suffix(q, t),
    ) by {
        if text::ends_in(name, suffix(q, t)) {
            suffixes_exclude_each_other(name, p, s, q, t);
        }
    }
    assert(suffix(0, false) == "_L"@ && suffix(0, true) == "_R"@);
    assert(suffix(1, false) == "_l"@ && suffix(1, true) == "_r"@);
    assert(suffix(2, false) == ".L"@ && suffix(2, true) == ".R"@);
    assert(suffix(3, false) == ".l"@ && suffix(3, true) == ".r"@);
    assert(suffix(4, false) == "Left"@ && suffix(4, true) == "Right"@);
    assert(suffix(5, false) == "left"@ && suffix(5, true) == "right"@);
}

/// Mirroring a name twice gives the name back.
pub proof fn mirror_name_is_an_involution(name: Seq<char>)
    requires
        mirror_name(name) is Some,
    ensures
        mirror_name(mirror_name(name)->0) == Some(name),
{
    assert(suffix(0, false) == "_L"@ && suffix(0, true) == "_R"@);
    assert(suffix(1, false) == "_l"@ && suffix(1, true) == "_r"@);
    assert(suffix(2, false) == ".L"@ && suffix(2, true) == ".R"@);
    assert(suffix(3, false) == ".l"@ && suffix(3, true) == ".r"@);
    assert(suffix(4, false) == "Left"@ && suffix(4, true) == "Right"@);
    assert(suffix(5, false) == "left"@ && suffix(5, true) == "right"@);
    let (p, s) = choose|p: int, s: bool|
        0 <= p < 6 && text::ends_in(name, #[trigger] suffix(p, s));
    assert(0 <= p < 6 && text::ends_in(name, suffix(p, s)));
    mirror_name_at(name, p, s);
    exchanged_ends(name, suffix(p, s), suffix(p, !s));
    mirror_name_at(mirror_name(name)->0, p, !s);
}

/// The mirror bone of bone number `b` among the first `n` bones: that of the
/// last bone with these 16 bits whose mirror exists.
pub open spec fn mirror_entry(skeleton: Skeleton, b: int, n: nat) -> Option<u16>
    decreases n,
{
    if n == 0 {
        None
    } else {
        match mirror_of(skeleton, n - 1) {
            Some(j) if (n - 1) % 0x1_0000 == b => Some(j as u16),
            _ => mirror_entry(skeleton, b, (n - 1) as nat),
        }
    }
}

/// The first bone that bears the mirror name of bone `i`.
pub open spec fn mirror_of(skeleton: Skeleton, i: int) -> Option<int> {
    match mirror_name(skeleton.bones@[i].name@) {
        Some(m) => first_named(skeleton, m, skeleton.bones@.len()),
        None => None,
    }
}

/// The first of the first `n` bones with a name.
pub open spec fn first_named(skeleton: Skeleton, name: Seq<char>, n: nat) -> Option<int>
    decreases n,
{
    if n == 0 {
        None
    } else {
        match first_named(skeleton, name, (n - 1) as nat) {
            Some(k) => Some(k),
            None => if skeleton.bones@[n - 1].name@ == name {
                Some(n - 1)
            } else {
                None
            },
        }
    }
}

proof fn first_named_found(skeleton: Skeleton, name: Seq<char>, k: Option<usize>, n: nat)
    requires
        n <= skeleton.bones@.len(),
        match k {
            Some(i) => i < skeleton.bones@.len() && skeleton.bones@[i as int].name@ == name
                && forall|j: int| 0 <= j < i ==> (#[trigger] skeleton.bones@[j]).name@ != name,
            None => forall|j: int|
                0 <= j < skeleton.bones@.len() ==> (#[trigger] skeleton.bones@[j]).name@ != name,
        },
    ensures
        first_named(skeleton, name, n) == (match k {
            Some(i) if i < n => Some(i as int),
            _ => None,
        }),
    decreases n,
{
    if n > 0 {
        first_named_found(skeleton, name, k, (n - 1) as nat);
    }
}

/// Map each bone to its mirror-side counterpart by name convention.
pub fn build_bone_mirror_map(skeleton: &Skeleton) -> (r: Vec<Option<u16>>)
    ensures
        r@.len() == 0x1_0000,
        forall|b: int|
            0 <= b < r@.len() ==> #[trigger] r@[b] == mirror_entry(
                *skeleton,
                b,
                skeleton.bones@.len(),
            ),
{
    let mut r: Vec<Option<u16>> = Vec::new();
    r.resize(0x1_0000, None);
    let mut i: usize = 0;
    while i < skeleton.len()
        invariant
            i <= skeleton.bones@.len(),
            r@.len() == 0x1_0000,
            forall|b: int|
                0 <= b < r@.len() ==> #[trigger] r@[b] == mirror_entry(*skeleton, b, i as nat),
        decreases skeleton.bones@.len() - i,
    {
        if let Some(name) = mirror_bone_name(skeleton.bones[i].name.as_str()) {
            let found = skeleton.index_of(name.as_str());
            proof {
                first_named_found(*skeleton, name@, found, skeleton.bones@.len());
            }
            if let Some(j) = found {
                r[i % 0x1_0000] = Some(j as u16);
            }
        }
        i += 1;
    }
    r
}

/// Influences carried over to the mirror side: slots that carry weight move to
/// the mirror bone, where there is one.
pub open spec fn mirrored(set: Seq<Influence>, table: Seq<Option<u16>>) -> Seq<Influence> {
    set.map_values(
        |s: Influence|
            if s.weighted() && table[s.bone as int] is Some {
                Influence { bone: table[s.bone as int]->0, weight: s.weight }
            } else {
                s
            },
    )
}

/// Carry influences over to the mirror side.
pub fn mirrored_influences(set: &VertexInfluences, table: &Vec<Option<u16>>) -> (r: VertexInfluences)
    requires
        table@.len() == 0x1_0000,
    ensures
        r@ == mirrored(set@, table@),
{
    let mut r: VertexInfluences = *set;
    let mut k: usize = 0;
    while k < MAX_INFLUENCES
        invariant
            k <= MAX_INFLUENCES,
            table@.len() == 0x1_0000,
            set@.len() == 4,
            r@.len() == 4,
            forall|j: int| 0 <= j < k ==> #[trigger] r@[j] == mirrored(set@, table@)[j],
            forall|j: int| k <= j < 4 ==> #[trigger] r@[j] == set@[j],
        decreases MAX_INFLUENCES - k,
    {
        let slot = set[k];
        if slot.weight.is_positive() {
            if let Some(m) = table[slot.bone as usize] {
                r[k] = Influence { bone: m, weight: slot.weight };
            }
        }
        k += 1;
    }
    assert(r@ =~= mirrored(set@, table@));
    r
}

/// No two bones bear the same name.
pub open spec fn distinct_names(skeleton: Skeleton) -> bool {
    forall|i: int, j: int|
        0 <= i < j < skeleton.bones@.len() ==> skeleton.bones@[i].name@ != skeleton.bones@[j].name@
}

proof fn named_is_found(skeleton: Skeleton, i: int, n: nat)
    requires
        distinct_names(skeleton),
        0 <= i < n <= skeleton.bones@.len(),
    ensures
        first_named(skeleton, skeleton.bones@[i].name@, n) == Some(i),
    decreases n,
{
    let name = skeleton.bones@[i].name@;
    if i < n - 1 {
        named_is_found(skeleton, i, (n - 1) as nat);
    } else {
        named_nowhere(skeleton, name, i as nat);
    }
}

proof fn named_nowhere(skeleton: Skeleton, name: Seq<char>, n: nat)
    requires
        n <= skeleton.bones@.len(),
        forall|j: int| 0 <= j < n ==> (#[trigger] skeleton.bones@[j]).name@ != name,
    ensures
        first_named(skeleton, name, n) is None,
    decreases n,
{
    if n > 0 {
        named_nowhere(skeleton, name, (n - 1) as nat);
    }
}

proof fn found_bears_name(skeleton: Skeleton, name: Seq<char>, n: nat)
    requires
        n <= skeleton.bones@.len(),
    ensures
        first_named(skeleton, name, n) matches Some(k) ==> 0 <= k < n
            && skeleton.bones@[k].name@ == name,
    decreases n,
{
    if n > 0 {
        found_bears_name(skeleton, name, (n - 1) as nat);
    }
}

proof fn entry_of_bone(skeleton: Skeleton, b: int, n: nat)
    requires
        n <= skeleton.bones@.len() <= 0x1_0000,
        0 <= b < 0x1_0000,
    ensures
        mirror_entry(skeleton, b, n) == (if b < n {
            match mirror_of(skeleton, b) {
                Some(j) => Some(j as u16),
                None => None,
            }
        } else {
            None
        }),
    decreases n,
{
    if n > 0 {
        entry_of_bone(skeleton, b, (n - 1) as nat);
    }
}

/// The mirror map leads back: the counterpart of a bone has that bone as its
/// counterpart, wherever no two bones bear the same name.
pub proof fn mirror_map_leads_back(skeleton: Skeleton, b: u16)
    requires
        distinct_names(skeleton),
        skeleton.bones@.len() <= 0x1_0000,
    ensures
        mirror_entry(skeleton, b as int, skeleton.bones@.len()) matches Some(c) ==> mirror_entry(
            skeleton,
            c as int,
            skeleton.bones@.len(),
        ) == Some(b),
{
    let n = skeleton.bones@.len();
    entry_of_bone(skeleton, b as int, n);
    if let Some(c) = mirror_entry(skeleton, b as int, n) {
        let name = skeleton.bones@[b as int].name@;
        let other = mirror_name(name)->0;
        found_bears_name(skeleton, other, n);
        mirror_name_is_an_involution(name);
        named_is_found(skeleton, b as int, n);
        entry_of_bone(skeleton, c as int, n);
    }
}

/// Carrying influences over and back gives them back, where the map leads back.
pub proof fn mirroring_twice_restores(set: Seq<Influence>, table: Seq<Option<u16>>)
    requires
        table.len() == 0x1_0000,
        forall|b: int|
            0 <= b < table.len() ==> (#[trigger] table[b] matches Some(c) ==> table[c as int]
                == Some(b as u16)),
    ensures
        mirrored(mirrored(set, table), table) == set,
{
    let twice = mirrored(mirrored(set, table), table);
    assert forall|k: int| 0 <= k < set.len() implies #[trigger] twice[k] == set[k] by {
        let s = set[k];
        assert(table[s.bone as int] matches Some(c) ==> table[c as int] == Some(s.bone));
    }
    assert(twice =~= set);
}

/// Whether a vertex is copied from: it lies on the source side and has a
/// partner.
pub open spec fn mirrors(
    vertices: Seq<RigVertex>,
    partners: Seq<Option<usize>>,
    axis: int,
    tolerance: Scalar,
    negative_to_positive: bool,
    v: int,
) -> bool {
    on_source_side(vertices[v].position@[axis], tolerance, negative_to_positive) && partners[v] is Some
}

/// The copies of a mirror operation as pairs of source and partner.
pub open spec fn copies_of(
    vertices: Seq<RigVertex>,
    partners: Seq<Option<usize>>,
    axis: int,
    tolerance: Scalar,
    negative_to_positive: bool,
) -> Seq<(usize, usize)> {
    listing::indices_where(
        vertices.len(),
        |v: int| mirrors(vertices, partners, axis, tolerance, negative_to_positive, v),
    ).map_values(|v: int| (v as usize, partners[v]->0))
}

/// The copies that a mirror operation makes, in ascending order of their
/// sources: from each vertex on the source side to the vertex at its mirror
/// place, if there is one.
pub fn mirror_copies(
    mesh: &SkinnedMesh,
    partners: &Vec<Option<usize>>,
    axis: usize,
    tolerance: Scalar,
    negative_to_positive: bool,
) -> (r: Vec<(usize, usize)>)
    requires
        axis < 3,
        partners@.len() == mesh.vertices@.len(),
    ensures
        r@ == copies_of(
            mesh.vertices@,
            partners@,
            axis as int,
            tolerance,
            negative_to_positive,
        ),
{
    let ghost p = |v: int|
        mirrors(mesh.vertices@, partners@, axis as int, tolerance, negative_to_positive, v);
    let ghost pair = |v: int| (v as usize, partners@[v]->0);
    let mut r: Vec<(usize, usize)> = Vec::new();
    let mut v: usize = 0;
    assert(r@ =~= listing::indices_where(0, p).map_values(pair));
    while v < mesh.vertices.len()
        invariant
            v <= mesh.vertices@.len(),
            axis < 3,
            partners@.len() == mesh.vertices@.len(),
            p == (|v: int|
                mirrors(mesh.vertices@, partners@, axis as int, tolerance, negative_to_positive, v)),
            pair == (|v: int| (v as usize, partners@[v]->0)),
            r@ == listing::indices_where(v as nat, p).map_values(pair),
        decreases mesh.vertices@.len() - v,
    {
        let ghost hit = p(v as int);
        let source = mirror_target(mesh.vertices[v].position, axis, tolerance, negative_to_positive);
        if source.is_some() {
            if let Some(partner) = partners[v] {
                r.push((v, partner));
            }
        }
        assert(r@ =~= listing::indices_where((v + 1) as nat, p).map_values(pair));
        v += 1;
    }
    r
}

/// The influences of all vertices, slot by slot.
pub open spec fn slots_of(influences: Seq<VertexInfluences>) -> Seq<Seq<Influence>> {
    influences.map_values(|set: VertexInfluences| set@)
}

/// The influences after the first `n` copies, each of which carries the
/// influences of a vertex over to its partner.
pub open spec fn carried(
    slots: Seq<Seq<Influence>>,
    copies: Seq<(usize, usize)>,
    table: Seq<Option<u16>>,
    n: nat,
) -> Seq<Seq<Influence>>
    decreases n,
{
    if n == 0 {
        slots
    } else {
        let before = carried(slots, copies, table, (n - 1) as nat);
        let (from, to) = copies[n - 1];
        before.update(to as int, mirrored(before[from as int], table))
    }
}

/// Carry influences over to mirror vertices, one copy after the other.
pub fn carry_over(
    mesh: &mut SkinnedMesh,
    copies: &Vec<(usize, usize)>,
    table: &Vec<Option<u16>>,
)
    requires
        table@.len() == 0x1_0000,
        forall|k: int|
            0 <= k < copies@.len() ==> (#[trigger] copies@[k]).0 < old(mesh).influences@.len()
                && copies@[k].1 < old(mesh).influences@.len(),
    ensures
        final(mesh).same_shape(*old(mesh)),
        slots_of(final(mesh).influences@) == carried(
            slots_of(old(mesh).influences@),
            copies@,
            table@,
            copies@.len(),
        ),
{
    let ghost slots = slots_of(mesh.influences@);
    let ghost shape = *mesh;
    let mut k: usize = 0;
    while k < copies.len()
        invariant
            k <= copies@.len(),
            table@.len() == 0x1_0000,
            mesh.same_shape(shape),
            mesh.influences@.len() == shape.influences@.len(),
            forall|k: int|
                0 <= k < copies@.len() ==> (#[trigger] copies@[k]).0 < shape.influences@.len()
                    && copies@[k].1 < shape.influences@.len(),
            slots_of(mesh.influences@) == carried(slots, copies@, table@, k as nat),
        decreases copies@.len() - k,
    {
        let (from, to) = copies[k];
        let ghost before = mesh.influences@;
        let set = mirrored_influences(&mesh.influences[from], table);
        mesh.set_influences(to, set);
        assert(slots_of(mesh.influences@) =~= slots_of(before).update(to as int, set@));
        assert(slots_of(before)[from as int] == before[from as int]@);
        k += 1;
    }
}

/// Mirroring changes no vertex but the partners.
pub proof fn mirroring_leaves_others(
    slots: Seq<Seq<Influence>>,
    copies: Seq<(usize, usize)>,
    table: Seq<Option<u16>>,
    v: int,
    n: nat,
)
    requires
        n <= copies.len(),
        0 <= v < slots.len(),
        forall|i: int|
            0 <= i < copies.len() ==> (#[trigger] copies[i]).0 < slots.len() && copies[i].1
                < slots.len(),
    ensures
        carried(slots, copies, table, n).len() == slots.len(),
        (forall|k: int| 0 <= k < n ==> (#[trigger] copies[k]).1 != v) ==> carried(
            slots,
            copies,
            table,
            n,
        )[v] == slots[v],
    decreases n,
{
    if n > 0 {
        mirroring_leaves_others(slots, copies, table, v, (n - 1) as nat);
        assert(copies[n - 1].1 < slots.len());
    }
}

/// Where the two sides do not mix, that is where no vertex is both read and
/// written, every partner ends with the influences of the last vertex that was
/// carried over to it.
pub proof fn partners_receive_mirrored(
    slots: Seq<Seq<Influence>>,
    copies: Seq<(usize, usize)>,
    table: Seq<Option<u16>>,
    k: int,
    n: nat,
)
    requires
        n <= copies.len(),
        0 <= k < n,
        forall|i: int, j: int|
            0 <= i < copies.len() && 0 <= j < copies.len() ==> (#[trigger] copies[i]).0 != (
            #[trigger] copies[j]).1,
        forall|i: int|
            0 <= i < copies.len() ==> (#[trigger] copies[i]).0 < slots.len() && copies[i].1
                < slots.len(),
        forall|j: int| k < j < n ==> (#[trigger] copies[j]).1 != copies[k].1,
    ensures
        carried(slots, copies, table, n)[copies[k].1 as int] == mirrored(
            slots[copies[k].0 as int],
            table,
        ),
    decreases n,
{
    let (from, to) = copies[k];
    mirroring_leaves_others(slots, copies, table, to as int, (n - 1) as nat);
    if k < n - 1 {
        partners_receive_mirrored(slots, copies, table, k, (n - 1) as nat);
        assert(copies[n - 1].1 != copies[k].1);
    } else {
        mirroring_leaves_others(slots, copies, table, from as int, (n - 1) as nat);
        assert forall|j: int| 0 <= j < n - 1 implies (#[trigger] copies[j]).1 != from by {
            assert(copies[k].0 != copies[j].1);
        }
    }
}

/// The vertices that the first `n` copies write, each once, in the order in
/// which they are first written.
pub open spec fn written(copies: Seq<(usize, usize)>, n: nat) -> Seq<usize>
    decreases n,
{
    if n == 0 {
        Seq::empty()
    } else {
        let before = written(copies, (n - 1) as nat);
        if before.contains(copies[n - 1].1) {
            before
        } else {
            before.push(copies[n - 1].1)
        }
    }
}

/// List the vertices that copies write.
pub fn written_vertices(copies: &Vec<(usize, usize)>) -> (r: Vec<usize>)
    ensures
        r@ == written(copies@, copies@.len()),
{
    let mut r: Vec<usize> = Vec::new();
    let mut n: usize = 0;
    while n < copies.len()
        invariant
            n <= copies@.len(),
            r@ == written(copies@, n as nat),
        decreases copies@.len() - n,
    {
        let to: usize = copies[n].1;
        let mut known = false;
        let mut k: usize = 0;
        while k < r.len()
            invariant
                k <= r@.len(),
                known == exists|j: int| 0 <= j < k && #[trigger] r@[j] == to,
            decreases r@.len() - k,
        {
            if r[k] == to {
                assert(r@[k as int] == to);
                known = true;
            }
            k += 1;
        }
        assert(known == r@.contains(to));
        if !known {
            r.push(to);
        }
        n += 1;
    }
    r
}

/// Exactly the partners of copies are written, and each is listed once.
pub proof fn written_are_the_partners(copies: Seq<(usize, usize)>, to: usize, n: nat)
    requires
        n <= copies.len(),
    ensures
        written(copies, n).no_duplicates(),
        written(copies, n).contains(to) <==> exists|k: int|
            0 <= k < n && (#[trigger] copies[k]).1 == to,
    decreases n,
{
    if n > 0 {
        written_are_the_partners(copies, to, (n - 1) as nat);
        let before = written(copies, (n - 1) as nat);
        let last = copies[n - 1].1;
        let after = before.push(last);
        if before.contains(to) {
            assert(after[before.index_of(to)] == to);
        }
        assert(after[before.len() as int] == last);
        if after.contains(to) && to != last {
            assert(before[after.index_of(to)] == to);
        }
        if exists|k: int| 0 <= k < n && (#[trigger] copies[k]).1 == to {
            let k = choose|k: int| 0 <= k < n && (#[trigger] copies[k]).1 == to;
            assert(k < n - 1 || to == last);
        }
        if before.contains(to) {
            let k = choose|k: int| 0 <= k < n - 1 && (#[trigger] copies[k]).1 == to;
            assert(0 <= k < n && copies[k].1 == to);
        }
        assert(copies[n - 1].1 == last);
    }
}

/// The influences after a mirror operation: what the copies carried over, and
/// for every written vertex what finishing its influences makes of them.
pub open spec fn mirror_result(
    slots: Seq<Seq<Influence>>,
    copies: Seq<(usize, usize)>,
    table: Seq<Option<u16>>,
    finish: spec_fn(Seq<Influence>) -> Seq<Influence>,
) -> Seq<Seq<Influence>> {
    let all = carried(slots, copies, table, copies.len());
    Seq::new(
        slots.len(),
        |v: int|
            if written(copies, copies.len()).contains(v as usize) {
                finish(all[v])
            } else {
                all[v]
            },
    )
}

/// Whether no vertex is both read and written.
pub open spec fn sides_apart(copies: Seq<(usize, usize)>) -> bool {
    forall|i: int, j: int|
        0 <= i < copies.len() && 0 <= j < copies.len() ==> (#[trigger] copies[i]).0 != (
        #[trigger] copies[j]).1
}

/// Whether all copies stay among `count` vertices.
pub open spec fn copies_in_range(copies: Seq<(usize, usize)>, count: nat) -> bool {
    forall|i: int|
        0 <= i < copies.len() ==> (#[trigger] copies[i]).0 < count && copies[i].1 < count
}

proof fn carried_agree(
    a: Seq<Seq<Influence>>,
    b: Seq<Seq<Influence>>,
    copies: Seq<(usize, usize)>,
    table: Seq<Option<u16>>,
    v: int,
    n: nat,
)
    requires
        n <= copies.len(),
        a.len() == b.len() <= usize::MAX,
        0 <= v < a.len(),
        copies_in_range(copies, a.len()),
        sides_apart(copies),
        forall|i: int|
            0 <= i < copies.len() ==> a[(#[trigger] copies[i]).0 as int] == b[copies[i].0 as int],
        written(copies, n).contains(v as usize),
    ensures
        carried(a, copies, table, n)[v] == carried(b, copies, table, n)[v],
    decreases n,
{
    if n > 0 {
        let (from, to) = copies[n - 1];
        mirroring_leaves_others(a, copies, table, v, (n - 1) as nat);
        mirroring_leaves_others(b, copies, table, v, (n - 1) as nat);
        if to == v {
            mirroring_leaves_others(a, copies, table, from as int, (n - 1) as nat);
            mirroring_leaves_others(b, copies, table, from as int, (n - 1) as nat);
            assert forall|k: int| 0 <= k < n - 1 implies (#[trigger] copies[k]).1 != from by {
                assert(copies[n - 1].0 != copies[k].1);
            }
            assert(a[from as int] == b[from as int]);
        } else {
            let before = written(copies, (n - 1) as nat);
            let all = written(copies, n);
            assert(before[all.index_of(v as usize)] == v as usize);
            carried_agree(a, b, copies, table, v, (n - 1) as nat);
        }
    }
}

/// Where the two sides do not mix, mirroring keeps the influences of every
/// vertex that is read, and mirroring once more changes nothing, however the
/// written influences are finished.
pub proof fn copying_again_changes_nothing(
    slots: Seq<Seq<Influence>>,
    copies: Seq<(usize, usize)>,
    table: Seq<Option<u16>>,
    finish: spec_fn(Seq<Influence>) -> Seq<Influence>,
)
    requires
        slots.len() <= usize::MAX,
        copies_in_range(copies, slots.len()),
        sides_apart(copies),
    ensures
        forall|v: int|
            0 <= v < slots.len() && !written(copies, copies.len()).contains(v as usize)
                ==> #[trigger] mirror_result(slots, copies, table, finish)[v] == slots[v],
        mirror_result(mirror_result(slots, copies, table, finish), copies, table, finish)
            == mirror_result(slots, copies, table, finish),
{
    let n = copies.len();
    let once = mirror_result(slots, copies, table, finish);
    let twice = mirror_result(once, copies, table, finish);
    assert forall|v: int|
        0 <= v < slots.len() && !written(copies, n).contains(v as usize) implies once[v] == slots[v]
        && twice[v] == once[v] by {
        written_are_the_partners(copies, v as usize, n);
        assert forall|k: int| 0 <= k < n implies (#[trigger] copies[k]).1 != v by {
            assert(copies[k].1 != v as usize);
        }
        mirroring_leaves_others(slots, copies, table, v, n);
        mirroring_leaves_others(once, copies, table, v, n);
    }
    assert forall|i: int| 0 <= i < n implies slots[(#[trigger] copies[i]).0 as int]
        == once[copies[i].0 as int] by {
        let from = copies[i].0;
        written_are_the_partners(copies, from, n);
        if written(copies, n).contains(from) {
            let k = choose|k: int| 0 <= k < n && (#[trigger] copies[k]).1 == from;
            assert(copies[i].0 != copies[k].1);
        }
    }
    assert forall|v: int| 0 <= v < slots.len() implies twice[v] == once[v] by {
        if written(copies, n).contains(v as usize) {
            carried_agree(slots, once, copies, table, v, n);
        }
    }
    assert(twice =~= once);
}

/// Mirroring keeps the influences of every vertex on the source side, and
/// mirroring once more with the same arguments changes nothing, however the
/// written influences are finished. The partners lie across: none of them is on
/// the source side itself, as is so of vertices near a mirror place wherever the
/// square of the tolerance neither vanishes nor overflows.
pub proof fn mirroring_again_changes_nothing(
    vertices: Seq<RigVertex>,
    partners: Seq<Option<usize>>,
    axis: int,
    tolerance: Scalar,
    negative_to_positive: bool,
    slots: Seq<Seq<Influence>>,
    table: Seq<Option<u16>>,
    finish: spec_fn(Seq<Influence>) -> Seq<Influence>,
)
    requires
        partners.len() == vertices.len() <= slots.len() <= usize::MAX,
        forall|v: int|
            0 <= v < vertices.len() && mirrors(
                vertices,
                partners,
                axis,
                tolerance,
                negative_to_positive,
                v,
            ) ==> (#[trigger] partners[v])->0 < vertices.len() && !on_source_side(
                vertices[partners[v]->0 as int].position@[axis],
                tolerance,
                negative_to_positive,
            ),
    ensures
        ({
            let copies = copies_of(vertices, partners, axis, tolerance, negative_to_positive);
            let once = mirror_result(slots, copies, table, finish);
            &&& forall|v: int|
                0 <= v < vertices.len() && on_source_side(
                    (#[trigger] vertices[v]).position@[axis],
                    tolerance,
                    negative_to_positive,
                ) ==> once[v] == slots[v]
            &&& mirror_result(once, copies, table, finish) == once
        }),
{
    let p = |v: int| mirrors(vertices, partners, axis, tolerance, negative_to_positive, v);
    let list = listing::indices_where(vertices.len(), p);
    let copies = copies_of(vertices, partners, axis, tolerance, negative_to_positive);
    listing::listed_ascending(vertices.len(), p);
    assert forall|i: int| 0 <= i < copies.len() implies {
        let v = list[i];
        &&& 0 <= v < vertices.len()
        &&& p(v)
        &&& #[trigger] copies[i] == (v as usize, partners[v]->0)
    } by {}
    assert forall|i: int| 0 <= i < copies.len() implies (#[trigger] copies[i]).0 < slots.len()
        && copies[i].1 < slots.len() by {
        assert(p(list[i]));
        assert(partners[list[i]]->0 < vertices.len());
    }
    assert forall|i: int, j: int| 0 <= i < copies.len() && 0 <= j < copies.len() implies (
    #[trigger] copies[i]).0 != (#[trigger] copies[j]).1 by {
        assert(p(list[i]) && p(list[j]));
        assert(partners[list[j]]->0 < vertices.len());
    }
    copying_again_changes_nothing(slots, copies, table, finish);
    assert forall|v: int|
        0 <= v < vertices.len() && on_source_side(
            (#[trigger] vertices[v]).position@[axis],
            tolerance,
            negative_to_positive,
        ) implies mirror_result(slots, copies, table, finish)[v] == slots[v] by {
        written_are_the_partners(copies, v as usize, copies.len());
        if written(copies, copies.len()).contains(v as usize) {
            let k = choose|k: int| 0 <= k < copies.len() && (#[trigger] copies[k]).1 == v as usize;
            assert(p(list[k]));
            assert(partners[list[k]]->0 == v);
        }
    }
}

/// Whether a coordinate lies on the side that is copied from: beyond the
/// tolerance on the negative or on the positive side.
pub open spec fn on_source_side(x: Scalar, tolerance: Scalar, negative_to_positive: bool) -> bool {
    if negative_to_positive {
        !x.nan() && !tolerance.nan() && x.rank() < -tolerance.rank()
    } else {
        tolerance.spec_lt(x)
    }
}

/// Where the mirror image of a vertex lies, if the vertex is on the side that
/// is copied from: the same place with the opposite coordinate along the axis.
pub fn mirror_target(
    position: [Scalar; 3],
    axis: usize,
    tolerance: Scalar,
    negative_to_positive: bool,
) -> (r: Option<[Scalar; 3]>)
    requires
        axis < 3,
    ensures
        match r {
            Some(p) => {
                &&& on_source_side(position@[axis as int], tolerance, negative_to_positive)
                &&& p@[axis as int].magnitude() == position@[axis as int].magnitude()
                &&& p@[axis as int].negative() == !position@[axis as int].negative()
                &&& forall|k: int| 0 <= k < 3 && k != axis ==> p@[k] == position@[k]
            },
            None => !on_source_side(position@[axis as int], tolerance, negative_to_positive),
        },
{
    let x = position[axis];
    let source = if negative_to_positive {
        x.less(tolerance.negated())
    } else {
        tolerance.less(x)
    };
    if source {
        let mut p = position;
        p[axis] = x.negated();
        Some(p)
    } else {
        None
    }
}

/// Among the first `n` vertices the nearest one other than `skip`, within the
/// tolerance; of equally near ones the last.
pub open spec fn nearest_of(distances: Seq<Scalar>, tolerance: Scalar, skip: int, n: nat) -> Option<
    int,
>
    decreases n,
{
    if n == 0 {
        None
    } else {
        let best = nearest_of(distances, tolerance, skip, (n - 1) as nat);
        let bound = match best {
            Some(k) => distances[k],
            None => tolerance,
        };
        if n - 1 != skip && distances[n - 1].spec_le(bound) {
            Some(n - 1)
        } else {
            best
        }
    }
}

/// The nearest vertex other than `skip`. `distances` are squared distances and
/// `tolerance` is the squared tolerance.
pub fn nearest_within(distances: &Vec<Scalar>, tolerance: Scalar, skip: usize) -> (r: Option<usize>)
    ensures
        match r {
            Some(k) => nearest_of(distances@, tolerance, skip as int, distances@.len()) == Some(
                k as int,
            ),
            None => nearest_of(distances@, tolerance, skip as int, distances@.len()) is None,
        },
{
    let mut best: Option<usize> = None;
    let mut bound = tolerance;
    let mut i: usize = 0;
    while i < distances.len()
        invariant
            i <= distances@.len(),
            match nearest_of(distances@, tolerance, skip as int, i as nat) {
                Some(k) => 0 <= k < i && best is Some && best->0 == k && bound == distances@[k],
                None => best is None && bound == tolerance,
            },
        decreases distances@.len() - i,
    {
        if i != skip && distances[i].at_most(bound) {
            best = Some(i);
            bound = distances[i];
        }
        i += 1;
    }
    best
}

/// The nearest vertex is within the tolerance and no other candidate is nearer.
pub proof fn nearest_of_is_nearest(distances: Seq<Scalar>, tolerance: Scalar, skip: int, n: nat)
    requires
        n <= distances.len(),
    ensures
        match nearest_of(distances, tolerance, skip, n) {
            Some(k) => 0 <= k < n && k != skip && distances[k].spec_le(tolerance) && forall|j: int|
                0 <= j < n && j != skip && (#[trigger] distances[j]).spec_le(tolerance)
                    ==> distances[k].spec_le(distances[j]),
            None => forall|j: int|
                0 <= j < n && j != skip ==> !(#[trigger] distances[j]).spec_le(tolerance),
        },
    decreases n,
{
    if n > 0 {
        nearest_of_is_nearest(distances, tolerance, skip, (n - 1) as nat);
    }
}

// ── prune ─────────────────────────────────────────────────────────────────────

/// Influences without the slots below a weight.
pub open spec fn pruned(set: Seq<Influence>, min_weight: Scalar) -> Seq<Influence> {
    set.map_values(
        |s: Influence|
            if s.weight.spec_lt(min_weight) {
                Influence::none()
            } else {
                s
            },
    )
}

/// Drop influences below `min_weight` from every vertex; the other weights are
/// kept as they are.
pub fn drop_small_weights(mesh: &mut SkinnedMesh, min_weight: Scalar)
    ensures
        final(mesh).same_shape(*old(mesh)),
        final(mesh).influences@.len() == old(mesh).influences@.len(),
        forall|v: int|
            0 <= v < old(mesh).influences@.len() ==> (#[trigger] final(mesh).influences@[v])@
                == pruned(old(mesh).influences@[v]@, min_weight),
{
    let mut v: usize = 0;
    while v < mesh.influences.len()
        invariant
            v <= mesh.influences@.len(),
            mesh.same_shape(*old(mesh)),
            mesh.influences@.len() == old(mesh).influences@.len(),
            forall|u: int|
                0 <= u < v ==> (#[trigger] mesh.influences@[u])@ == pruned(
                    old(mesh).influences@[u]@,
                    min_weight,
                ),
            forall|u: int|
                v <= u < mesh.influences@.len() ==> mesh.influences@[u] == old(mesh).influences@[u],
        decreases mesh.influences@.len() - v,
    {
        let mut set: VertexInfluences = mesh.influences[v];
        let ghost start = set@;
        let mut k: usize = 0;
        while k < MAX_INFLUENCES
            invariant
                k <= MAX_INFLUENCES,
                start.len() == 4,
                set@.len() == 4,
                forall|j: int| 0 <= j < k ==> #[trigger] set@[j] == pruned(start, min_weight)[j],
                forall|j: int| k <= j < 4 ==> #[trigger] set@[j] == start[j],
            decreases MAX_INFLUENCES - k,
        {
            if set[k].weight.less(min_weight) {
                set[k] = Influence::none();
            }
            k += 1;
        }
        assert(set@ =~= pruned(start, min_weight));
        mesh.influences[v] = set;
        v += 1;
    }
}

// ── what holds of them ────────────────────────────────────────────────────────

/// A dab has the factor that the falloff lists for a vertex, and full strength
/// where it lists none or there is no falloff; what it lists for other vertices
/// does not matter.
pub proof fn listed_factors_scale_the_dab(
    falloff: Map<u32, Scalar>,
    v: u32,
    u: u32,
    factor: Scalar,
)
    ensures
        dab_scale(Some(falloff.insert(v, factor)), v) == factor,
        u != v ==> dab_scale(Some(falloff.insert(v, factor)), u) == dab_scale(Some(falloff), u),
        dab_scale(Some(falloff.remove(v)), v).bits == 0x3F80_0000,
        dab_scale(None, v).bits == 0x3F80_0000,
{
}

/// The slots that a smoothing pass reads of some neighbours are exactly those
/// slots of theirs that carry weight.
pub proof fn neighbours_give_their_weighted_slots(
    influences: Seq<VertexInfluences>,
    neighbours: Seq<u32>,
    n: nat,
    slot: Influence,
)
    requires
        n <= neighbours.len(),
    ensures
        neighbour_slots(influences, neighbours, n).contains(slot) <==> Scalar::zero().spec_lt(
            slot.weight,
        ) && exists|k: int|
            0 <= k < n && influences[#[trigger] neighbours[k] as int]@.contains(slot),
    decreases n,
{
    let p = |s: Influence| s.weighted();
    broadcast use Seq::lemma_filter_contains, Seq::lemma_filter_contains_rev, Seq::lemma_filter_pred;

    if n > 0 {
        neighbours_give_their_weighted_slots(influences, neighbours, (n - 1) as nat, slot);
        let before = neighbour_slots(influences, neighbours, (n - 1) as nat);
        let set = influences[neighbours[n - 1] as int]@;
        let here = set.filter(p);
        let all = before + here;
        if here.contains(slot) {
            let i = here.index_of(slot);
            assert(p(here[i]));
            assert(all[before.len() + i] == slot);
        }
        if before.contains(slot) {
            let i = before.index_of(slot);
            assert(all[i] == slot);
        }
        if all.contains(slot) {
            let i = all.index_of(slot);
            if i < before.len() {
                assert(before[i] == slot);
            } else {
                assert(here[i - before.len()] == slot);
            }
        }
        if set.contains(slot) && p(slot) {
            let i = set.index_of(slot);
            assert(here.contains(set[i]));
        }
    }
}

/// A smoothing pass touches a vertex exactly if some neighbour carries weight.
pub proof fn weighted_neighbours_make_a_vertex_smoothable(
    graph: Seq<Seq<u32>>,
    influences: Seq<VertexInfluences>,
    v: u32,
)
    ensures
        smoothable(graph, influences, v) <==> exists|k: int|
            0 <= k < graph[v as int].len() && mesh::has_weight(
                influences[#[trigger] graph[v as int][k] as int]@,
            ),
{
    let list = graph[v as int];
    let slots = neighbour_slots(influences, list, list.len());
    if slots.len() > 0 {
        assert(slots.contains(slots[0]));
        neighbours_give_their_weighted_slots(influences, list, list.len(), slots[0]);
        let k = choose|k: int|
            0 <= k < list.len() && influences[#[trigger] list[k] as int]@.contains(slots[0]);
        let set = influences[list[k] as int]@;
        assert(set[set.index_of(slots[0])].weighted());
        assert(mesh::has_weight(influences[graph[v as int][k] as int]@));
    }
    if exists|k: int|
        0 <= k < graph[v as int].len() && mesh::has_weight(
            influences[#[trigger] graph[v as int][k] as int]@,
        ) {
        let k = choose|k: int|
            0 <= k < graph[v as int].len() && mesh::has_weight(
                influences[#[trigger] graph[v as int][k] as int]@,
            );
        let set = influences[list[k] as int]@;
        let j = choose|j: int| 0 <= j < set.len() && (#[trigger] set[j]).weighted();
        assert(set.contains(set[j]));
        neighbours_give_their_weighted_slots(influences, list, list.len(), set[j]);
    }
}

/// Grouping slots by bone loses no weight: each slot's weight is in the share of
/// its bone.
pub proof fn grouping_keeps_each_weight(shares: Seq<BoneShare>, slots: Seq<Influence>, k: int)
    requires
        groups(shares, slots),
        0 <= k < slots.len(),
    ensures
        exists|i: int|
            0 <= i < shares.len() && (#[trigger] shares[i]).bone == slots[k].bone
                && shares[i].weights@.contains(slots[k].weight),
{
    broadcast use Seq::lemma_filter_contains;

    assert(shared(shares, slots[k].bone));
    let i = choose|i: int| 0 <= i < shares.len() && (#[trigger] shares[i]).bone == slots[k].bone;
    let p = |s: Influence| s.bone == shares[i].bone;
    let kept = slots.filter(p);
    assert(kept.contains(slots[k]));
    let c = kept.index_of(slots[k]);
    assert(shares[i].weights@[c] == slots[k].weight);
}

/// Grouping slots by bone mixes no bones: each weight of a share stands in some
/// slot of its bone.
pub proof fn grouping_mixes_no_bones(
    shares: Seq<BoneShare>,
    slots: Seq<Influence>,
    i: int,
    w: Scalar,
)
    requires
        groups(shares, slots),
        0 <= i < shares.len(),
        shares[i].weights@.contains(w),
    ensures
        slots.contains(Influence { bone: shares[i].bone, weight: w }),
{
    broadcast use Seq::lemma_filter_contains_rev, Seq::lemma_filter_pred;

    let p = |s: Influence| s.bone == shares[i].bone;
    let kept = slots.filter(p);
    let c = shares[i].weights@.index_of(w);
    assert(kept.contains(kept[c]));
    assert(p(kept[c]));
    assert(kept[c] == Influence { bone: shares[i].bone, weight: w });
}

/// Any stem with one side's suffix mirrors to the stem with the other side's.
pub proof fn stems_change_sides(stem: Seq<char>)
    ensures
        mirror_name(stem + "_L"@) == Some(stem + "_R"@),
        mirror_name(stem + "_R"@) == Some(stem + "_L"@),
        mirror_name(stem + "_l"@) == Some(stem + "_r"@),
        mirror_name(stem + "_r"@) == Some(stem + "_l"@),
        mirror_name(stem + ".L"@) == Some(stem + ".R"@),
        mirror_name(stem + ".R"@) == Some(stem + ".L"@),
        mirror_name(stem + ".l"@) == Some(stem + ".r"@),
        mirror_name(stem + ".r"@) == Some(stem + ".l"@),
        mirror_name(stem + "Left"@) == Some(stem + "Right"@),
        mirror_name(stem + "Right"@) == Some(stem + "Left"@),
        mirror_name(stem + "left"@) == Some(stem + "right"@),
        mirror_name(stem + "right"@) == Some(stem + "left"@),
{
    assert forall|p: int, s: bool| 0 <= p < 6 implies mirror_name(stem + #[trigger] suffix(p, s))
        == Some(stem + suffix(p, !s)) by {
        text::endings_come_off(stem, suffix(p, s), stem + suffix(p, s));
        mirror_name_at(stem + suffix(p, s), p, s);
    }
    assert(suffix(0, false) == "_L"@ && suffix(0, true) == "_R"@);
    assert(suffix(1, false) == "_l"@ && suffix(1, true) == "_r"@);
    assert(suffix(2, false) == ".L"@ && suffix(2, true) == ".R"@);
    assert(suffix(3, false) == ".l"@ && suffix(3, true) == ".r"@);
    assert(suffix(4, false) == "Left"@ && suffix(4, true) == "Right"@);
    assert(suffix(5, false) == "left"@ && suffix(5, true) == "right"@);
}

/// A name has a mirror only if it ends in a side: then its last character is
/// one of a few letters.
pub proof fn centre_names_have_no_mirror(name: Seq<char>)
    requires
        mirror_name(name) is Some,
    ensures
        name.len() >= 2,
        ({
            let last = name.last();
            last == 'L' || last == 'R' || last == 'l' || last == 'r' || last == 't'
        }),
{
    reveal_strlit("_L");
    reveal_strlit("_R");
    reveal_strlit("_l");
    reveal_strlit("_r");
    reveal_strlit(".L");
    reveal_strlit(".R");
    reveal_strlit(".l");
    reveal_strlit(".r");
    reveal_strlit("Left");
    reveal_strlit("Right");
    reveal_strlit("left");
    reveal_strlit("right");
    assert(suffix(0, false) == "_L"@ && suffix(0, true) == "_R"@);
    assert(suffix(1, false) == "_l"@ && suffix(1, true) == "_r"@);
    assert(suffix(2, false) == ".L"@ && suffix(2, true) == ".R"@);
    assert(suffix(3, false) == ".l"@ && suffix(3, true) == ".r"@);
    assert(suffix(4, false) == "Left"@ && suffix(4, true) == "Right"@);
    assert(suffix(5, false) == "left"@ && suffix(5, true) == "right"@);
    let (p, s) = choose|p: int, s: bool|
        0 <= p < 6 && text::ends_in(name, #[trigger] suffix(p, s));
    assert(0 <= p < 6 && text::ends_in(name, suffix(p, s)));
    ending_chars(name, suffix(p, s));
}

/// Where no two bones bear the same name, a bone is mapped to another exactly if
/// that other bears its mirror name.
pub proof fn mirror_map_pairs_names(skeleton: Skeleton, b: int, c: int)
    requires
        distinct_names(skeleton),
        skeleton.bones@.len() <= 0x1_0000,
        0 <= b < skeleton.bones@.len(),
        0 <= c < skeleton.bones@.len(),
    ensures
        mirror_entry(skeleton, b, skeleton.bones@.len()) == Some(c as u16) <==> mirror_name(
            skeleton.bones@[b].name@,
        ) == Some(skeleton.bones@[c].name@),
{
    let n = skeleton.bones@.len();
    entry_of_bone(skeleton, b, n);
    named_is_found(skeleton, c, n);
    if let Some(m) = mirror_name(skeleton.bones@[b].name@) {
        found_bears_name(skeleton, m, n);
    }
}

/// Carrying influences over keeps every weight, slot by slot. A slot that
/// carries weight moves to the mirror bone, where the map knows one.
pub proof fn mirroring_keeps_weights(set: Seq<Influence>, table: Seq<Option<u16>>, k: int)
    requires
        0 <= k < set.len(),
    ensures
        mirrored(set, table).len() == set.len(),
        mirrored(set, table)[k].weight == set[k].weight,
        Scalar::zero().spec_lt(set[k].weight) && table[set[k].bone as int] is Some ==> Some(
            mirrored(set, table)[k].bone,
        ) == table[set[k].bone as int],
        !Scalar::zero().spec_lt(set[k].weight) || table[set[k].bone as int] is None ==> mirrored(
            set,
            table,
        )[k].bone == set[k].bone,
{
}

/// A coordinate lies on the negative source side exactly if the opposite
/// coordinate lies on the positive one; with a tolerance that is not negative
/// no coordinate lies on both, and one within the tolerance lies on neither.
pub proof fn source_sides_are_opposite(x: Scalar, opposite: Scalar, tolerance: Scalar)
    requires
        opposite.magnitude() == x.magnitude(),
        opposite.negative() == !x.negative(),
        Scalar::zero().spec_le(tolerance),
    ensures
        on_source_side(x, tolerance, true) <==> on_source_side(opposite, tolerance, false),
        !(on_source_side(x, tolerance, true) && on_source_side(x, tolerance, false)),
        on_source_side(x, tolerance, false) ==> tolerance.spec_lt(x) && Scalar::zero().spec_lt(x),
        on_source_side(x, tolerance, true) ==> x.spec_lt(Scalar::zero()),
        x.magnitude() <= tolerance.magnitude() && !tolerance.nan() ==> !on_source_side(
            x,
            tolerance,
            true,
        ) && !on_source_side(x, tolerance, false),
        x.magnitude() > tolerance.magnitude() && !x.nan() && !x.negative() ==> on_source_side(
            x,
            tolerance,
            false,
        ),
{
}

/// Pruning leaves no slot that carries a weight above zero but below the least,
/// keeps every slot that is not below it, and clears the others; a larger least
/// weight prunes what is left of a smaller one as if it came first.
pub proof fn pruning_clears_small_weights(
    set: Seq<Influence>,
    min_weight: Scalar,
    more: Scalar,
    k: int,
)
    requires
        0 <= k < set.len(),
        !min_weight.nan(),
        Scalar::zero().spec_lt(min_weight),
        min_weight.spec_le(more),
    ensures
        pruned(set, min_weight).len() == set.len(),
        !(Scalar::zero().spec_lt(pruned(set, min_weight)[k].weight) && pruned(
            set,
            min_weight,
        )[k].weight.spec_lt(min_weight)),
        min_weight.spec_le(set[k].weight) ==> pruned(set, min_weight)[k] == set[k],
        set[k].weight.spec_lt(min_weight) ==> pruned(set, min_weight)[k].weight.bits == 0 && pruned(
            set,
            min_weight,
        )[k].bone == 0,
        pruned(pruned(set, min_weight), more) == pruned(set, more),
{
    assert(pruned(pruned(set, min_weight), more) =~= pruned(set, more));
}

/// A vertex that is bound rigidly follows its bone alone: the bone is dominant
/// with full weight, and no other slot carries any.
pub proof fn rigid_vertices_follow_one_bone(bone: u16, k: int)
    requires
        0 <= k < 4,
    ensures
        rigid(bone).len() == 4,
        mesh::dominant_of(rigid(bone)) == Some(bone),
        mesh::weight_for(rigid(bone), bone, 4).bits == 0x3F80_0000,
        rigid(bone)[k].weighted() <==> k == 0,
{
    let set = rigid(bone);
    mesh::dominant_bone_has_the_heaviest_slot(set);
    assert(set[0].weighted());
    mesh::first_slot_gives_the_weight(set, bone, 0, 4);
}

/// Of equally near candidates the last is taken: every later one within the
/// tolerance is farther.
pub proof fn later_candidates_are_farther(
    distances: Seq<Scalar>,
    tolerance: Scalar,
    skip: int,
    n: nat,
    j: int,
)
    requires
        n <= distances.len(),
        nearest_of(distances, tolerance, skip, n) matches Some(k) && k < j < n,
        j != skip,
        distances[j].spec_le(tolerance),
    ensures
        distances[nearest_of(distances, tolerance, skip, n)->0].spec_lt(distances[j]),
    decreases n,
{
    nearest_of_is_nearest(distances, tolerance, skip, (n - 1) as nat);
    if j < n - 1 {
        later_candidates_are_farther(distances, tolerance, skip, (n - 1) as nat, j);
    }
}

} // verus!
