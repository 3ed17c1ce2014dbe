//! Skinnable mesh: vertices with stable numbers, triangle indices, and bone
//! influences per vertex.
use vstd::prelude::*;
use crate::limits;
use crate::listing;
use crate::scalar::Scalar;
use crate::scalar;

verus! {

/// Maximum bone influences per vertex.
pub const MAX_INFLUENCES: usize = 4;

/// One vertex of a skinnable mesh.
#[derive(Clone, Copy, Debug, PartialEq, Eq)]
pub struct RigVertex {
    pub position: [Scalar; 3],
    pub normal: [Scalar; 3],
    pub uv: [Scalar; 2],
}

impl RigVertex {
    /// The position.
    pub fn pos(&self) -> (r: [Scalar; 3])
        ensures
            r == self.position,
    {
        self.position
    }

    /// The normal.
    pub fn nrm(&self) -> (r: [Scalar; 3])
        ensures
            r == self.normal,
    {
        self.normal
    }
}

/// A bone and its weight. A weight of zero marks an unused slot.
#[derive(Clone, Copy, Debug, PartialEq, Eq, Structural)]
pub struct Influence {
    pub bone: u16,
    pub weight: Scalar,
}

impl Influence {
    /// An unused slot.
    #[verifier::allow_in_spec]
    pub fn none() -> Influence
        returns
            (Influence { bone: 0, weight: Scalar::zero() }),
    {
        Influence { bone: 0, weight: Scalar::zero() }
    }

    /// Whether the slot carries weight.
    pub open spec fn weighted(self) -> bool {
        Scalar::zero().spec_lt(self.weight)
    }
}

/// The influence slots of one vertex.
pub type VertexInfluences = [Influence; MAX_INFLUENCES];

/// A set of four unused slots.
pub fn empty_influences() -> (r: VertexInfluences)
    ensures
        r@ == seq![Influence::none(), Influence::none(), Influence::none(), Influence::none()],
{
    let r: VertexInfluences = [Influence::none(), Influence::none(), Influence::none(), Influence::none()];
    assert(r@ =~= seq![Influence::none(), Influence::none(), Influence::none(), Influence::none()]);
    r
}

/// Whether some slot carries weight.
pub open spec fn has_weight(set: Seq<Influence>) -> bool {
    exists|k: int| 0 <= k < set.len() && (#[trigger] set[k]).weighted()
}

/// Whether every slot's weight is a number that is not above zero.
pub open spec fn all_weightless(set: Seq<Influence>) -> bool {
    forall|k: int| 0 <= k < set.len() ==> (#[trigger] set[k]).weight.spec_le(Scalar::zero())
}

/// Among the first `n` slots that carry weight, the heaviest one; of equally
/// heavy ones the last.
pub open spec fn dominant_slot(set: Seq<Influence>, n: nat) -> Option<int>
    decreases n,
{
    if n == 0 {
        None
    } else {
        let best = dominant_slot(set, (n - 1) as nat);
        let slot = set[n - 1];
        if slot.weighted() && (best is None || set[best->0].weight.total_rank()
            <= slot.weight.total_rank()) {
            Some(n - 1)
        } else {
            best
        }
    }
}

/// The bone of the heaviest slot, if some slot carries weight.
pub open spec fn dominant_of(set: Seq<Influence>) -> Option<u16> {
    match dominant_slot(set, set.len()) {
        Some(k) => Some(set[k].bone),
        None => None,
    }
}

/// The dominant slot carries weight, no slot outweighs it, and it exists as
/// soon as some slot carries weight.
pub proof fn dominant_is_heaviest(set: Seq<Influence>, n: nat)
    requires
        n <= set.len(),
    ensures
        match dominant_slot(set, n) {
            Some(k) => 0 <= k < n && set[k].weighted() && (forall|j: int|
                0 <= j < n && (#[trigger] set[j]).weighted() ==> set[j].weight.rank()
                    <= set[k].weight.rank() && (j > k ==> set[j].weight.rank()
                    < set[k].weight.rank())),
            None => forall|j: int| 0 <= j < n ==> !(#[trigger] set[j]).weighted(),
        },
    decreases n,
{
    if n > 0 {
        dominant_is_heaviest(set, (n - 1) as nat);
    }
}

/// The heaviest weighted slot's bone.
pub fn dominant_influence(set: &VertexInfluences) -> (r: Option<u16>)
    ensures
        r == dominant_of(set@),
{
    let mut best: Option<usize> = None;
    let mut k: usize = 0;
    while k < MAX_INFLUENCES
        invariant
            k <= MAX_INFLUENCES,
            set@.len() == MAX_INFLUENCES,
            match dominant_slot(set@, k as nat) {
                Some(j) => best is Some && best->0 == j && 0 <= j < k,
                None => best is None,
            },
        decreases MAX_INFLUENCES - k,
    {
        let slot = set[k];
        if slot.weight.is_positive() {
            let better = match best {
                None => true,
                Some(j) => !slot.weight.total_less(set[j].weight),
            };
            if better {
                best = Some(k);
            }
        }
        k += 1;
    }
    match best {
        Some(j) => Some(set[j].bone),
        None => None,
    }
}

// ── strongest influences ──────────────────────────────────────────────────────

/// Where a slot goes in a list ordered from heavy to light: behind every slot
/// of the first `n` that is at least as heavy.
pub open spec fn place_of(ordered: Seq<Influence>, weight: Scalar, n: nat) -> int
    decreases n,
{
    if n == 0 {
        0
    } else if ordered[n - 1].weight.total_rank() >= weight.total_rank() {
        n as int
    } else {
        place_of(ordered, weight, (n - 1) as nat)
    }
}

/// The slots from heavy to light; equally heavy slots keep their order.
pub open spec fn by_weight(all: Seq<Influence>) -> Seq<Influence>
    decreases all.len(),
{
    if all.len() == 0 {
        Seq::empty()
    } else {
        let ordered = by_weight(all.drop_last());
        ordered.insert(place_of(ordered, all.last().weight, ordered.len()), all.last())
    }
}

/// The four heaviest slots, filled up with unused ones.
pub open spec fn strongest_of(all: Seq<Influence>) -> Seq<Influence> {
    Seq::new(
        MAX_INFLUENCES as nat,
        |k: int|
            if k < by_weight(all).len() {
                by_weight(all)[k]
            } else {
                Influence::none()
            },
    )
}

proof fn place_splits(ordered: Seq<Influence>, weight: Scalar, n: nat)
    requires
        n <= ordered.len(),
        forall|a: int, b: int|
            0 <= a <= b < ordered.len() ==> ordered[a].weight.total_rank()
                >= ordered[b].weight.total_rank(),
    ensures
        0 <= place_of(ordered, weight, n) <= n,
        forall|a: int|
            0 <= a < place_of(ordered, weight, n) ==> (#[trigger] ordered[a]).weight.total_rank()
                >= weight.total_rank(),
        forall|a: int|
            place_of(ordered, weight, n) <= a < n ==> (#[trigger] ordered[a]).weight.total_rank()
                < weight.total_rank(),
    decreases n,
{
    if n > 0 && ordered[n - 1].weight.total_rank() < weight.total_rank() {
        place_splits(ordered, weight, (n - 1) as nat);
    }
}

/// Ordering by weight descends and neither loses nor invents a slot.
pub proof fn by_weight_orders(all: Seq<Influence>)
    ensures
        by_weight(all).to_multiset() == all.to_multiset(),
        by_weight(all).len() == all.len(),
        forall|a: int, b: int|
            0 <= a <= b < by_weight(all).len() ==> by_weight(all)[a].weight.total_rank()
                >= by_weight(all)[b].weight.total_rank(),
    decreases all.len(),
{
    broadcast use vstd::seq_lib::group_to_multiset_ensures;

    if all.len() > 0 {
        by_weight_orders(all.drop_last());
        let ordered = by_weight(all.drop_last());
        let at = place_of(ordered, all.last().weight, ordered.len());
        place_splits(ordered, all.last().weight, ordered.len());
        assert(all =~= all.drop_last().push(all.last()));
        assert(ordered.insert(at, all.last()).to_multiset() =~= ordered.to_multiset().insert(
            all.last(),
        )) by {
            vstd::seq_lib::to_multiset_insert(ordered, at, all.last());
        }
    } else {
        assert(by_weight(all) =~= all);
    }
}

/// Keep the heaviest slots of a list, heaviest first.
pub fn strongest_influences(all: &Vec<Influence>) -> (r: VertexInfluences)
    ensures
        r@ == strongest_of(all@),
{
    let mut ordered: Vec<Influence> = Vec::new();
    let mut i: usize = 0;
    while i < all.len()
        invariant
            i <= all.len(),
            ordered@ == by_weight(all@.take(i as int)),
            ordered@.len() == i,
        decreases all.len() - i,
    {
        proof {
            by_weight_orders(all@.take(i as int));
            assert(all@.take(i as int + 1).drop_last() =~= all@.take(i as int));
        }
        let slot = all[i];
        let mut at: usize = ordered.len();
        while at > 0 && ordered[at - 1].weight.total_less(slot.weight)
            invariant
                at <= ordered.len(),
                place_of(ordered@, slot.weight, ordered@.len()) == place_of(
                    ordered@,
                    slot.weight,
                    at as nat,
                ),
            decreases at,
        {
            at -= 1;
        }
        ordered.insert(at, slot);
        i += 1;
    }
    proof {
        assert(all@.take(i as int) =~= all@);
    }
    let mut r = empty_influences();
    let mut k: usize = 0;
    while k < MAX_INFLUENCES && k < ordered.len()
        invariant
            k <= MAX_INFLUENCES,
            k <= ordered.len(),
            r@.len() == MAX_INFLUENCES,
            forall|j: int| 0 <= j < k ==> r@[j] == ordered@[j],
            forall|j: int| k <= j < MAX_INFLUENCES ==> r@[j] == Influence::none(),
        decreases MAX_INFLUENCES - k,
    {
        r[k] = ordered[k];
        k += 1;
    }
    assert(r@ =~= strongest_of(all@));
    r
}

// ── adjacency ─────────────────────────────────────────────────────────────────

/// Neighbour lists as plain sequences.
pub open spec fn graph_of(adj: Seq<Vec<u32>>) -> Seq<Seq<u32>> {
    Seq::new(adj.len(), |i: int| adj[i]@)
}

/// List `b` as a neighbour of `a`, unless it is listed already.
pub open spec fn connected(g: Seq<Seq<u32>>, a: u32, b: u32) -> Seq<Seq<u32>> {
    if g[a as int].contains(b) {
        g
    } else {
        g.update(a as int, g[a as int].push(b))
    }
}

/// Connect the three edges of a triangle, both ways each.
pub open spec fn triangle_connected(g: Seq<Seq<u32>>, a: u32, b: u32, c: u32) -> Seq<Seq<u32>> {
    let ab = connected(connected(g, a, b), b, a);
    let bc = connected(connected(ab, b, c), c, b);
    connected(connected(bc, c, a), a, c)
}

/// The neighbour lists of `n` vertices after the first `t` triangles.
pub open spec fn adjacency_after(n: nat, indices: Seq<u32>, t: nat) -> Seq<Seq<u32>>
    decreases t,
{
    if t == 0 {
        Seq::new(n, |i: int| Seq::empty())
    } else {
        triangle_connected(
            adjacency_after(n, indices, (t - 1) as nat),
            indices[3 * t - 3],
            indices[3 * t - 2],
            indices[3 * t - 1],
        )
    }
}

/// The neighbour lists of `n` vertices joined by the whole triangles of an
/// index list; a started last triangle does not count.
pub open spec fn adjacency_of(n: nat, indices: Seq<u32>) -> Seq<Seq<u32>> {
    adjacency_after(n, indices, indices.len() / 3)
}

/// Every index of a whole triangle names one of `n` vertices.
pub open spec fn triangles_in_range(n: nat, indices: Seq<u32>) -> bool {
    forall|j: int| 0 <= j < 3 * (indices.len() / 3) ==> (#[trigger] indices[j]) < n
}

/// Whether one of the first `t` triangles has an edge between `a` and `b`. A
/// triangle that names a vertex twice joins the vertex to itself.
pub open spec fn share_edge(indices: Seq<u32>, t: nat, a: u32, b: u32) -> bool
    decreases t,
{
    if t == 0 {
        false
    } else {
        share_edge(indices, (t - 1) as nat, a, b) || {
            let (x, y, z) = (indices[3 * t - 3], indices[3 * t - 2], indices[3 * t - 1]);
            ||| (a == x && b == y) || (a == y && b == x)
            ||| (a == y && b == z) || (a == z && b == y)
            ||| (a == z && b == x) || (a == x && b == z)
        }
    }
}

proof fn connected_contains(g: Seq<Seq<u32>>, a: u32, b: u32)
    requires
        a < g.len(),
    ensures
        connected(g, a, b).len() == g.len(),
        forall|v: int, w: u32|
            0 <= v < g.len() ==> (#[trigger] connected(g, a, b)[v].contains(w) <==> g[v].contains(w)
                || (v == a && w == b)),
        (forall|v: int| 0 <= v < g.len() ==> (#[trigger] g[v]).no_duplicates()) ==> forall|v: int|
            0 <= v < g.len() ==> (#[trigger] connected(g, a, b)[v]).no_duplicates(),
{
    if !g[a as int].contains(b) {
        let s = g[a as int];
        assert forall|w: u32| #[trigger] s.push(b).contains(w) <==> s.contains(w) || w == b by {
            if s.contains(w) {
                assert(s.push(b)[s.index_of(w)] == w);
            }
            assert(s.push(b)[s.len() as int] == b);
            if s.push(b).contains(w) && w != b {
                let k = s.push(b).index_of(w);
                assert(s[k] == w);
            }
        }
    }
}

/// The adjacency graph is exactly the edge relation: `b` is a neighbour of `a`
/// if and only if they share a triangle edge. No neighbour is listed twice.
pub proof fn adjacency_is_edge_relation(n: nat, indices: Seq<u32>, t: nat)
    requires
        t <= indices.len() / 3,
        triangles_in_range(n, indices),
    ensures
        adjacency_after(n, indices, t).len() == n,
        forall|a: u32, b: u32|
            a < n ==> (#[trigger] adjacency_after(n, indices, t)[a as int].contains(b)
                <==> share_edge(indices, t, a, b)),
        forall|v: int|
            0 <= v < n ==> (#[trigger] adjacency_after(n, indices, t)[v]).no_duplicates(),
    decreases t,
{
    if t > 0 {
        adjacency_is_edge_relation(n, indices, (t - 1) as nat);
        let g = adjacency_after(n, indices, (t - 1) as nat);
        let (a, b, c) = (indices[3 * t - 3], indices[3 * t - 2], indices[3 * t - 1]);
        let g1 = connected(g, a, b);
        let g2 = connected(g1, b, a);
        let g3 = connected(g2, b, c);
        let g4 = connected(g3, c, b);
        let g5 = connected(g4, c, a);
        connected_contains(g, a, b);
        connected_contains(g1, b, a);
        connected_contains(g2, b, c);
        connected_contains(g3, c, b);
        connected_contains(g4, c, a);
        connected_contains(g5, a, c);
    }
}

proof fn share_edge_symmetric(indices: Seq<u32>, t: nat, a: u32, b: u32)
    ensures
        share_edge(indices, t, a, b) == share_edge(indices, t, b, a),
    decreases t,
{
    if t > 0 {
        share_edge_symmetric(indices, (t - 1) as nat, a, b);
    }
}

proof fn share_edge_in_range(n: nat, indices: Seq<u32>, t: nat, a: u32, b: u32)
    requires
        t <= indices.len() / 3,
        triangles_in_range(n, indices),
        share_edge(indices, t, a, b),
    ensures
        a < n,
        b < n,
    decreases t,
{
    if share_edge(indices, (t - 1) as nat, a, b) {
        share_edge_in_range(n, indices, (t - 1) as nat, a, b);
    }
}

/// The adjacency graph is undirected and stays within the mesh.
pub proof fn adjacency_is_undirected(n: nat, indices: Seq<u32>, a: u32, b: u32)
    requires
        triangles_in_range(n, indices),
        a < n,
        adjacency_of(n, indices)[a as int].contains(b),
    ensures
        b < n,
        adjacency_of(n, indices)[b as int].contains(a),
{
    let t = indices.len() / 3;
    adjacency_is_edge_relation(n, indices, t);
    assert(adjacency_after(n, indices, t)[a as int].contains(b));
    share_edge_symmetric(indices, t, a, b);
    share_edge_in_range(n, indices, t, a, b);
    assert(adjacency_after(n, indices, t)[b as int].contains(a));
}

/// Only vertices with a number of 32 bits have neighbours.
pub proof fn vertices_beyond_numbers_are_alone(n: nat, indices: Seq<u32>, t: nat, v: int)
    requires
        t <= indices.len() / 3,
        triangles_in_range(n, indices),
        u32::MAX < v < n,
    ensures
        adjacency_after(n, indices, t).len() == n,
        adjacency_after(n, indices, t)[v].len() == 0,
    decreases t,
{
    if t > 0 {
        vertices_beyond_numbers_are_alone(n, indices, (t - 1) as nat, v);
    }
}

/// In a sound mesh every vertex has a neighbour list that names vertices only.
pub proof fn sound_neighbours_stay(mesh: SkinnedMesh)
    requires
        mesh.sound(),
    ensures
        mesh.adjacency_ready(),
        mesh.neighbours().len() == mesh.vertices@.len(),
        forall|v: int, k: int|
            0 <= v < mesh.neighbours().len() && 0 <= k < mesh.neighbours()[v].len()
                ==> #[trigger] mesh.neighbours()[v][k] < mesh.vertices@.len(),
{
    let n = mesh.vertices@.len();
    let t = mesh.indices@.len() / 3;
    adjacency_is_edge_relation(n, mesh.indices@, t);
    let graph = adjacency_of(n, mesh.indices@);
    assert forall|v: int, k: int| 0 <= v < graph.len() && 0 <= k < graph[v].len() implies (
    #[trigger] graph[v][k]) < n by {
        if n <= u32::MAX {
            let b = graph[v][k];
            assert(graph[v].contains(b));
            adjacency_is_undirected(n, mesh.indices@, v as u32, b);
        }
    }
}

fn list_contains(list: &Vec<u32>, x: u32) -> (r: bool)
    ensures
        r == list@.contains(x),
{
    let mut i: usize = 0;
    while i < list.len()
        invariant
            i <= list.len(),
            forall|j: int| 0 <= j < i ==> list@[j] != x,
        decreases list.len() - i,
    {
        if list[i] == x {
            return true;
        }
        i += 1;
    }
    false
}

fn connect(adj: &mut Vec<Vec<u32>>, a: u32, b: u32)
    requires
        a < old(adj)@.len(),
    ensures
        final(adj)@.len() == old(adj)@.len(),
        graph_of(final(adj)@) == connected(graph_of(old(adj)@), a, b),
{
    let at: usize = a as usize;
    if !list_contains(&adj[at], b) {
        adj[at].push(b);
        assert(graph_of(adj@) =~= connected(graph_of(old(adj)@), a, b));
    }
}

/// Build the undirected vertex adjacency from triangle edges.
pub fn build_adjacency(vertex_count: usize, indices: &Vec<u32>) -> (adj: Vec<Vec<u32>>)
    requires
        triangles_in_range(vertex_count as nat, indices@),
    ensures
        graph_of(adj@) == adjacency_of(vertex_count as nat, indices@),
{
    let mut adj: Vec<Vec<u32>> = Vec::new();
    let mut i: usize = 0;
    while i < vertex_count
        invariant
            i <= vertex_count,
            adj@.len() == i,
            forall|j: int| 0 <= j < i ==> (#[trigger] adj@[j])@ == Seq::<u32>::empty(),
        decreases vertex_count - i,
    {
        adj.push(Vec::new());
        i += 1;
    }
    let count: usize = indices.len() / 3;
    let mut t: usize = 0;
    assert(graph_of(adj@) =~= adjacency_after(vertex_count as nat, indices@, 0));
    while t < count
        invariant
            t <= count,
            count == indices.len() / 3,
            triangles_in_range(vertex_count as nat, indices@),
            adj@.len() == vertex_count,
            graph_of(adj@) == adjacency_after(vertex_count as nat, indices@, t as nat),
        decreases count - t,
    {
        let (a, b, c): (u32, u32, u32) = (indices[3 * t], indices[3 * t + 1], indices[3 * t + 2]);
        connect(&mut adj, a, b);
        connect(&mut adj, b, a);
        connect(&mut adj, b, c);
        connect(&mut adj, c, b);
        connect(&mut adj, c, a);
        connect(&mut adj, a, c);
        t += 1;
    }
    adj
}

// ── mesh ──────────────────────────────────────────────────────────────────────

/// A mesh that can be bound to a skeleton.
#[derive(Clone, Debug)]
pub struct SkinnedMesh {
    pub vertices: Vec<RigVertex>,
    pub indices: Vec<u32>,
    /// One influence set per vertex, parallel to `vertices`.
    pub influences: Vec<VertexInfluences>,
    /// Neighbour lists, built on first use and kept until invalidated.
    pub adjacency: Option<Vec<Vec<u32>>>,
}

/// The smaller of a running lower bound and a coordinate; what is not a number
/// never replaces the bound.
pub open spec fn lower_of(bound: Scalar, x: Scalar) -> Scalar {
    if x.spec_lt(bound) {
        x
    } else {
        bound
    }
}

/// The larger of a running upper bound and a coordinate; what is not a number
/// never replaces the bound.
pub open spec fn upper_of(bound: Scalar, x: Scalar) -> Scalar {
    if bound.spec_lt(x) {
        x
    } else {
        bound
    }
}

/// Lowest coordinate of the first `n` vertices along an axis; infinity if there
/// is none.
pub open spec fn lowest(vertices: Seq<RigVertex>, axis: int, n: nat) -> Scalar
    decreases n,
{
    if n == 0 {
        Scalar::infinity()
    } else {
        lower_of(lowest(vertices, axis, (n - 1) as nat), vertices[n - 1].position[axis])
    }
}

/// Highest coordinate of the first `n` vertices along an axis; negative
/// infinity if there is none.
pub open spec fn highest(vertices: Seq<RigVertex>, axis: int, n: nat) -> Scalar
    decreases n,
{
    if n == 0 {
        Scalar::neg_infinity()
    } else {
        upper_of(highest(vertices, axis, (n - 1) as nat), vertices[n - 1].position[axis])
    }
}

/// Every coordinate that is a number lies within the bounds.
pub proof fn bounds_enclose(vertices: Seq<RigVertex>, axis: int, n: nat, i: int)
    requires
        0 <= i < n <= vertices.len(),
        !vertices[i].position[axis].nan(),
    ensures
        lowest(vertices, axis, n).spec_le(vertices[i].position[axis]),
        vertices[i].position[axis].spec_le(highest(vertices, axis, n)),
    decreases n,
{
    bounds_are_numbers(vertices, axis, (n - 1) as nat);
    if i < n - 1 {
        bounds_enclose(vertices, axis, (n - 1) as nat, i);
    }
}

proof fn bounds_are_numbers(vertices: Seq<RigVertex>, axis: int, n: nat)
    ensures
        !lowest(vertices, axis, n).nan(),
        !highest(vertices, axis, n).nan(),
    decreases n,
{
    if n > 0 {
        bounds_are_numbers(vertices, axis, (n - 1) as nat);
    }
}

/// Whether a slot feeds weight of `bone` into a vertex.
pub open spec fn feeds(slot: Influence, bone: u16) -> bool {
    slot.weighted() && slot.bone == bone
}

/// The weight `bone` has among the first `n` slots: that of the first slot that
/// carries weight for it, or zero.
pub open spec fn weight_for(set: Seq<Influence>, bone: u16, n: nat) -> Scalar
    decreases n,
{
    if n == 0 {
        Scalar::zero()
    } else if exists|k: int| 0 <= k < n - 1 && feeds(#[trigger] set[k], bone) {
        weight_for(set, bone, (n - 1) as nat)
    } else if feeds(set[n - 1], bone) {
        set[n - 1].weight
    } else {
        Scalar::zero()
    }
}

/// The slots that carry weight for bones other than `bone`.
pub open spec fn others_of(set: Seq<Influence>, bone: u16) -> Seq<Influence> {
    set.filter(|slot: Influence| slot.weighted() && slot.bone != bone)
}

impl SkinnedMesh {
    /// The cached neighbour lists, if there are any.
    pub open spec fn cached(self) -> Option<Seq<Seq<u32>>> {
        match self.adjacency {
            Some(adj) => Some(graph_of(adj@)),
            None => None,
        }
    }

    /// The neighbour lists that the topological tools walk: the cached ones, or
    /// else those of the triangles.
    pub open spec fn neighbours(self) -> Seq<Seq<u32>> {
        match self.cached() {
            Some(g) => g,
            None => adjacency_of(self.vertices@.len(), self.indices@),
        }
    }

    /// Neighbour lists are cached or can be built.
    pub open spec fn adjacency_ready(self) -> bool {
        self.cached() is Some || triangles_in_range(self.vertices@.len(), self.indices@)
    }

    /// Every triangle names vertices of the mesh, every vertex has influences,
    /// and cached neighbour lists are those of the triangles.
    pub open spec fn sound(self) -> bool {
        &&& triangles_in_range(self.vertices@.len(), self.indices@)
        &&& self.influences@.len() == self.vertices@.len()
        &&& (self.cached() matches Some(g) ==> g == adjacency_of(
            self.vertices@.len(),
            self.indices@,
        ))
    }

    /// Geometry and cached neighbour lists agree.
    pub open spec fn same_shape(self, other: SkinnedMesh) -> bool {
        &&& self.vertices == other.vertices
        &&& self.indices == other.indices
        &&& self.cached() == other.cached()
    }

    /// A mesh whose vertices have no influence yet.
    pub fn new(vertices: Vec<RigVertex>, indices: Vec<u32>) -> (mesh: SkinnedMesh)
        ensures
            mesh.vertices == vertices,
            mesh.indices == indices,
            mesh.cached() is None,
            mesh.influences@.len() == vertices@.len(),
            forall|v: int|
                0 <= v < vertices@.len() ==> (#[trigger] mesh.influences@[v])@ == seq![
                    Influence::none(),
                    Influence::none(),
                    Influence::none(),
                    Influence::none(),
                ],
    {
        let mut influences: Vec<VertexInfluences> = Vec::new();
        let mut i: usize = 0;
        while i < vertices.len()
            invariant
                i <= vertices.len(),
                influences@.len() == i,
                forall|v: int|
                    0 <= v < i ==> (#[trigger] influences@[v])@ == seq![
                        Influence::none(),
                        Influence::none(),
                        Influence::none(),
                        Influence::none(),
                    ],
            decreases vertices.len() - i,
        {
            influences.push(empty_influences());
            i += 1;
        }
        SkinnedMesh { vertices, indices, influences, adjacency: None }
    }

    /// Number of vertices.
    pub fn vertex_count(&self) -> (n: usize)
        ensures
            n == self.vertices@.len(),
    {
        self.vertices.len()
    }

    /// Number of whole triangles.
    pub fn triangle_count(&self) -> (n: usize)
        ensures
            n == self.indices@.len() / 3,
    {
        self.indices.len() / 3
    }

    /// Whether every vertex has at least one slot that carries weight.
    pub fn is_fully_skinned(&self) -> (r: bool)
        ensures
            r == (forall|v: int|
                0 <= v < self.influences@.len() ==> has_weight((#[trigger] self.influences@[v])@)),
    {
        let mut v: usize = 0;
        while v < self.influences.len()
            invariant
                v <= self.influences.len(),
                forall|w: int| 0 <= w < v ==> has_weight((#[trigger] self.influences@[w])@),
            decreases self.influences.len() - v,
        {
            let mut some = false;
            let mut k: usize = 0;
            while k < MAX_INFLUENCES
                invariant
                    k <= MAX_INFLUENCES,
                    v < self.influences.len(),
                    self.influences@[v as int]@.len() == MAX_INFLUENCES,
                    some == (exists|j: int|
                        0 <= j < k && (#[trigger] self.influences@[v as int]@[j]).weighted()),
                decreases MAX_INFLUENCES - k,
            {
                if self.influences[v][k].weight.is_positive() {
                    some = true;
                    assert(self.influences@[v as int]@[k as int].weighted());
                }
                k += 1;
            }
            if !some {
                assert(!has_weight(self.influences@[v as int]@));
                return false;
            }
            v += 1;
        }
        true
    }

    /// Vertices whose slots carry no weight at all, in ascending order.
    pub fn unweighted_vertices(&self) -> (r: Vec<u32>)
        ensures
            r@ == listing::as_u32(
                listing::indices_where(
                    self.influences@.len(),
                    |v: int| all_weightless(self.influences@[v]@),
                ),
            ),
    {
        let ghost p = |v: int| all_weightless(self.influences@[v]@);
        let mut r: Vec<u32> = Vec::new();
        let mut v: usize = 0;
        while v < self.influences.len()
            invariant
                v <= self.influences.len(),
                p == (|v: int| all_weightless(self.influences@[v]@)),
                r@ == listing::as_u32(listing::indices_where(v as nat, p)),
            decreases self.influences.len() - v,
        {
            let mut none = true;
            let mut k: usize = 0;
            while k < MAX_INFLUENCES
                invariant
                    k <= MAX_INFLUENCES,
                    v < self.influences.len(),
                    self.influences@[v as int]@.len() == MAX_INFLUENCES,
                    none == (forall|j: int|
                        0 <= j < k ==> (#[trigger] self.influences@[v as int]@[j]).weight.spec_le(
                            Scalar::zero(),
                        )),
                decreases MAX_INFLUENCES - k,
            {
                if !self.influences[v][k].weight.at_most(Scalar::zero()) {
                    none = false;
                    assert(!self.influences@[v as int]@[k as int].weight.spec_le(Scalar::zero()));
                }
                k += 1;
            }
            if none {
                r.push(v as u32);
                assert(p(v as int));
                assert(r@ =~= listing::as_u32(listing::indices_where((v + 1) as nat, p)));
            } else {
                assert(!p(v as int));
            }
            v += 1;
        }
        r
    }

    /// Bind a vertex rigidly, with weight one, to a single bone.
    pub fn set_rigid(&mut self, vertex: usize, bone: u16)
        requires
            vertex < old(self).influences@.len(),
        ensures
            final(self).same_shape(*old(self)),
            final(self).influences@.len() == old(self).influences@.len(),
            final(self).influences@[vertex as int]@ == seq![
                Influence { bone, weight: Scalar::one() },
                Influence::none(),
                Influence::none(),
                Influence::none(),
            ],
            forall|v: int|
                0 <= v < old(self).influences@.len() && v != vertex ==> final(self).influences@[v]
                    == old(self).influences@[v],
    {
        let mut set = empty_influences();
        set[0] = Influence { bone, weight: Scalar::one() };
        assert(set@ =~= seq![
            Influence { bone, weight: Scalar::one() },
            Influence::none(),
            Influence::none(),
            Influence::none(),
        ]);
        self.influences[vertex] = set;
    }

    /// Replace the influences of one vertex.
    pub fn set_influences(&mut self, vertex: usize, set: VertexInfluences)
        requires
            vertex < old(self).influences@.len(),
        ensures
            final(self).same_shape(*old(self)),
            final(self).influences@ == old(self).influences@.update(vertex as int, set),
    {
        self.influences[vertex] = set;
    }

    /// Exchange all influences for another list and hand back the old ones.
    pub fn replace_influences(&mut self, influences: Vec<VertexInfluences>) -> (r: Vec<
        VertexInfluences,
    >)
        ensures
            final(self).same_shape(*old(self)),
            final(self).influences == influences,
            r == old(self).influences,
    {
        let mut swapped = influences;
        std::mem::swap(&mut self.influences, &mut swapped);
        swapped
    }

    /// The bone with the highest weight at a vertex, if some slot carries
    /// weight.
    pub fn dominant_bone(&self, vertex: usize) -> (r: Option<u16>)
        requires
            vertex < self.influences@.len(),
        ensures
            r == dominant_of(self.influences@[vertex as int]@),
    {
        dominant_influence(&self.influences[vertex])
    }

    /// The weight a bone has at a vertex before a paint stroke.
    pub fn current_weight(&self, vertex: usize, bone: u16) -> (r: Scalar)
        requires
            vertex < self.influences@.len(),
        ensures
            r == weight_for(
                self.influences@[vertex as int]@,
                bone,
                self.influences@[vertex as int]@.len(),
            ),
    {
        let ghost set = self.influences@[vertex as int]@;
        let mut found: Option<Scalar> = None;
        let mut k: usize = 0;
        while k < MAX_INFLUENCES
            invariant
                k <= MAX_INFLUENCES,
                vertex < self.influences@.len(),
                set == self.influences@[vertex as int]@,
                set.len() == MAX_INFLUENCES,
                found is Some <==> exists|j: int| 0 <= j < k && feeds(#[trigger] set[j], bone),
                weight_for(set, bone, k as nat) == (match found {
                    Some(w) => w,
                    None => Scalar::zero(),
                }),
            decreases MAX_INFLUENCES - k,
        {
            let slot = self.influences[vertex][k];
            if slot.weight.is_positive() && slot.bone == bone {
                assert(feeds(set[k as int], bone));
                if found.is_none() {
                    found = Some(slot.weight);
                }
            }
            k += 1;
        }
        match found {
            Some(w) => w,
            None => Scalar::zero(),
        }
    }

    /// The slots of the other bones at a vertex, among which a paint stroke
    /// distributes what it leaves over.
    pub fn other_influences(&self, vertex: usize, bone: u16) -> (r: Vec<Influence>)
        requires
            vertex < self.influences@.len(),
        ensures
            r@ == others_of(self.influences@[vertex as int]@, bone),
    {
        let ghost set = self.influences@[vertex as int]@;
        let ghost keep = |slot: Influence| slot.weighted() && slot.bone != bone;
        let mut r: Vec<Influence> = Vec::new();
        let mut k: usize = 0;
        proof {
            reveal(Seq::filter);
            assert(set.take(0) =~= Seq::empty());
        }
        while k < MAX_INFLUENCES
            invariant
                k <= MAX_INFLUENCES,
                vertex < self.influences@.len(),
                set == self.influences@[vertex as int]@,
                set.len() == MAX_INFLUENCES,
                keep == (|slot: Influence| slot.weighted() && slot.bone != bone),
                r@ == set.take(k as int).filter(keep),
            decreases MAX_INFLUENCES - k,
        {
            let slot = self.influences[vertex][k];
            proof {
                reveal(Seq::filter);
                assert(set.take(k + 1).drop_last() =~= set.take(k as int));
                assert(set.take(k + 1).last() == slot);
            }
            if slot.weight.is_positive() && slot.bone != bone {
                r.push(slot);
            }
            k += 1;
        }
        proof {
            assert(set.take(k as int) =~= set);
        }
        r
    }

    /// Build the neighbour lists if none are cached, and lend them out.
    pub fn adjacency(&mut self) -> (r: &Vec<Vec<u32>>)
        requires
            old(self).adjacency_ready(),
        ensures
            graph_of(r@) == old(self).neighbours(),
            final(self).vertices == old(self).vertices,
            final(self).indices == old(self).indices,
            final(self).influences == old(self).influences,
            final(self).cached() == Some(old(self).neighbours()),
    {
        if self.adjacency.is_none() {
            self.adjacency = Some(build_adjacency(self.vertices.len(), &self.indices));
        }
        self.adjacency.as_ref().unwrap()
    }

    /// Drop the cached neighbour lists, as after editing indices.
    pub fn invalidate_adjacency(&mut self)
        ensures
            final(self).vertices == old(self).vertices,
            final(self).indices == old(self).indices,
            final(self).influences == old(self).influences,
            final(self).cached() is None,
    {
        self.adjacency = None;
    }

    /// Axis-aligned bounding box of all vertex positions: the lowest and the
    /// highest coordinate per axis.
    pub fn bounds(&self) -> (r: ([Scalar; 3], [Scalar; 3]))
        ensures
            forall|axis: int|
                0 <= axis < 3 ==> #[trigger] r.0@[axis] == lowest(
                    self.vertices@,
                    axis,
                    self.vertices@.len(),
                ),
            forall|axis: int|
                0 <= axis < 3 ==> #[trigger] r.1@[axis] == highest(
                    self.vertices@,
                    axis,
                    self.vertices@.len(),
                ),
    {
        let mut lo: [Scalar; 3] = [Scalar::infinity(), Scalar::infinity(), Scalar::infinity()];
        let mut hi: [Scalar; 3] = [
            Scalar::neg_infinity(),
            Scalar::neg_infinity(),
            Scalar::neg_infinity(),
        ];
        let mut i: usize = 0;
        while i < self.vertices.len()
            invariant
                i <= self.vertices.len(),
                lo@.len() == 3,
                hi@.len() == 3,
                forall|axis: int|
                    0 <= axis < 3 ==> #[trigger] lo@[axis] == lowest(self.vertices@, axis, i as nat),
                forall|axis: int|
                    0 <= axis < 3 ==> #[trigger] hi@[axis] == highest(self.vertices@, axis, i as nat),
            decreases self.vertices.len() - i,
        {
            let p = self.vertices[i].position;
            let mut k: usize = 0;
            while k < 3
                invariant
                    k <= 3,
                    i < self.vertices.len(),
                    p == self.vertices@[i as int].position,
                    lo@.len() == 3,
                    hi@.len() == 3,
                    forall|axis: int|
                        0 <= axis < 3 ==> #[trigger] lo@[axis] == lowest(
                            self.vertices@,
                            axis,
                            (if axis < k { i + 1 } else { i as int }) as nat,
                        ),
                    forall|axis: int|
                        0 <= axis < 3 ==> #[trigger] hi@[axis] == highest(
                            self.vertices@,
                            axis,
                            (if axis < k { i + 1 } else { i as int }) as nat,
                        ),
                decreases 3 - k,
            {
                if p[k].less(lo[k]) {
                    lo[k] = p[k];
                }
                if hi[k].less(p[k]) {
                    hi[k] = p[k];
                }
                k += 1;
            }
            i += 1;
        }
        (lo, hi)
    }
}

impl Default for SkinnedMesh {
    /// A mesh without vertices.
    fn default() -> (mesh: SkinnedMesh)
        ensures
            mesh.vertices@.len() == 0,
            mesh.indices@.len() == 0,
            mesh.influences@.len() == 0,
            mesh.cached() is None,
    {
        SkinnedMesh {
            vertices: Vec::new(),
            indices: Vec::new(),
            influences: Vec::new(),
            adjacency: None,
        }
    }
}

/// The influences of a vertex after a paint stroke that gave `bone` the weight
/// `target` and the other bones the weights in `others`: the strongest of them.
pub fn painted_influences(others: Vec<Influence>, bone: u16, target: Scalar) -> (r: VertexInfluences)
    ensures
        r@ == strongest_of(
            if Scalar::zero().spec_lt(target) {
                others@.push(Influence { bone, weight: target })
            } else {
                others@
            },
        ),
{
    let mut all = others;
    if target.is_positive() {
        all.push(Influence { bone, weight: target });
    }
    strongest_influences(&all)
}

/// Where a paint stroke takes the weight of a bone: nowhere if it adds nothing,
/// else to the `raised` weight as far as it lies between zero and one.
pub open spec fn stroke_end(delta: Scalar, raised: Scalar) -> Option<Scalar> {
    if delta.magnitude() == 0 {
        None
    } else {
        Some(limits::clamped(raised, Scalar::zero(), Scalar::one()))
    }
}

/// Where a paint stroke that adds `delta` takes the weight of a bone, which it
/// would raise to `raised`.
pub fn stroke_target(delta: Scalar, raised: Scalar) -> (r: Option<Scalar>)
    ensures
        r == stroke_end(delta, raised),
{
    if delta.abs().to_bits() == 0 {
        None
    } else {
        Some(limits::clamp_number(raised, Scalar::zero(), Scalar::one()))
    }
}

// ── normalising ───────────────────────────────────────────────────────────────

/// A slot without negative weight.
pub open spec fn floored(slot: Influence) -> Influence {
    if slot.weight.spec_lt(Scalar::zero()) {
        Influence { bone: slot.bone, weight: Scalar::zero() }
    } else {
        slot
    }
}

fn floored_slot(slot: Influence) -> (r: Influence)
    ensures
        r == floored(slot),
{
    if slot.weight.less(Scalar::zero()) {
        Influence { bone: slot.bone, weight: Scalar::zero() }
    } else {
        slot
    }
}

/// Clear the negative weights of a vertex.
pub fn floored_influences(set: &VertexInfluences) -> (r: VertexInfluences)
    ensures
        r@ == set@.map_values(|slot: Influence| floored(slot)),
{
    let r: VertexInfluences = [
        floored_slot(set[0]),
        floored_slot(set[1]),
        floored_slot(set[2]),
        floored_slot(set[3]),
    ];
    assert(r@ =~= set@.map_values(|slot: Influence| floored(slot)));
    r
}

/// The slots of a vertex with their `shares` of the `sum` of its weights. A
/// vertex whose weights have no positive sum keeps its slots.
pub open spec fn shared_out(set: Seq<Influence>, sum: Scalar, shares: Seq<Scalar>) -> Seq<Influence> {
    if Scalar::zero().spec_lt(sum) {
        Seq::new(set.len(), |k: int| Influence { bone: set[k].bone, weight: shares[k] })
    } else {
        set
    }
}

/// Give each slot of a vertex its share of the sum of the vertex's weights.
pub fn normalize_one(inf: &mut VertexInfluences, sum: Scalar, shares: &[Scalar; MAX_INFLUENCES])
    ensures
        final(inf)@ == shared_out(old(inf)@, sum, shares@),
{
    let ghost before = inf@;
    if sum.is_positive() {
        *inf = [
            Influence { bone: inf[0].bone, weight: shares[0] },
            Influence { bone: inf[1].bone, weight: shares[1] },
            Influence { bone: inf[2].bone, weight: shares[2] },
            Influence { bone: inf[3].bone, weight: shares[3] },
        ];
    }
    assert(inf@ =~= shared_out(before, sum, shares@));
}

/// Normalising keeps which bones a vertex has, slot by slot, and clearing
/// negative weights keeps which slots carry weight.
pub proof fn normalizing_keeps_bones(set: Seq<Influence>, sum: Scalar, shares: Seq<Scalar>)
    ensures
        shared_out(set, sum, shares).len() == set.len(),
        forall|k: int|
            0 <= k < set.len() ==> (#[trigger] shared_out(set, sum, shares)[k]).bone == set[k].bone,
        forall|k: int|
            0 <= k < set.len() ==> (#[trigger] floored(set[k])).weighted() == set[k].weighted(),
{
}

/// The dominant bone is that of a slot which carries weight and which no other
/// slot outweighs; there is one exactly if some slot carries weight.
pub proof fn dominant_bone_has_the_heaviest_slot(set: Seq<Influence>)
    ensures
        dominant_of(set) is Some <==> has_weight(set),
        dominant_of(set) matches Some(b) ==> exists|k: int|
            0 <= k < set.len() && (#[trigger] set[k]).bone == b && set[k].weighted() && forall|
                j: int,
            |
                0 <= j < set.len() && !set[j].weight.nan() ==> (#[trigger] set[j]).weight.spec_le(
                    set[k].weight,
                ),
{
    dominant_is_heaviest(set, set.len());
    if let Some(k) = dominant_slot(set, set.len()) {
        assert(set[k].weighted());
        assert forall|j: int| 0 <= j < set.len() && !set[j].weight.nan() implies (
        #[trigger] set[j]).weight.spec_le(set[k].weight) by {}
    } else if has_weight(set) {
        let k = choose|k: int| 0 <= k < set.len() && (#[trigger] set[k]).weighted();
        assert(set[k].weighted());
    }
}

/// Slots of equal weight keep their order when slots are ordered by weight.
pub proof fn by_weight_keeps_the_order_of_equals(all: Seq<Influence>, rank: int)
    ensures
        by_weight(all).filter(|s: Influence| s.weight.total_rank() == rank) == all.filter(
            |s: Influence| s.weight.total_rank() == rank,
        ),
    decreases all.len(),
{
    let p = |s: Influence| s.weight.total_rank() == rank;
    reveal(Seq::filter);
    if all.len() > 0 {
        let front = all.drop_last();
        let slot = all.last();
        by_weight_keeps_the_order_of_equals(front, rank);
        by_weight_orders(front);
        let ordered = by_weight(front);
        let at = place_of(ordered, slot.weight, ordered.len());
        place_splits(ordered, slot.weight, ordered.len());
        let (head, tail) = (ordered.take(at), ordered.skip(at));
        assert(ordered =~= head + tail);
        assert(by_weight(all) =~= head.push(slot) + tail);
        Seq::filter_distributes_over_add(head, tail, p);
        Seq::filter_distributes_over_add(head.push(slot), tail, p);
        assert(head.push(slot).drop_last() =~= head);
        if p(slot) {
            assert forall|i: int| 0 <= i < tail.len() implies !p(#[trigger] tail[i]) by {
                assert(tail[i] == ordered[at + i]);
            }
            none_pass(tail, p);
            assert(head.push(slot).filter(p) + tail.filter(p) =~= (head.filter(p) + tail.filter(
                p,
            )).push(slot));
        }
    }
}

proof fn none_pass(list: Seq<Influence>, p: spec_fn(Influence) -> bool)
    requires
        forall|i: int| 0 <= i < list.len() ==> !p(#[trigger] list[i]),
    ensures
        list.filter(p) == Seq::<Influence>::empty(),
    decreases list.len(),
{
    reveal(Seq::filter);
    if list.len() > 0 {
        assert(!p(list[list.len() - 1]));
        let front = list.drop_last();
        assert forall|i: int| 0 <= i < front.len() implies !p(#[trigger] front[i]) by {
            assert(front[i] == list[i]);
        }
        none_pass(front, p);
    }
}

/// Of a list of slots the strongest four are kept, heaviest first: what is kept
/// and what is left out together are the list, nothing that is left out is
/// heavier than anything kept, and places that nothing fills are unused.
pub proof fn strongest_outweigh_the_rest(all: Seq<Influence>) -> (rest: Seq<Influence>)
    ensures
        ({
            let kept = strongest_of(all);
            let used = if all.len() < 4 { all.len() as int } else { 4 };
            &&& kept.len() == 4
            &&& kept.take(used).to_multiset().add(rest.to_multiset()) == all.to_multiset()
            &&& rest.len() == all.len() - used
            &&& forall|a: int, b: int|
                0 <= a <= b < used ==> (#[trigger] kept[b]).weight.total_rank() <= (
                #[trigger] kept[a]).weight.total_rank()
            &&& forall|a: int, b: int|
                0 <= a < used && 0 <= b < rest.len() ==> (#[trigger] rest[b]).weight.total_rank()
                    <= (#[trigger] kept[a]).weight.total_rank()
            &&& forall|a: int|
                used <= a < 4 ==> (#[trigger] kept[a]).weight.bits == 0 && kept[a].bone == 0
        }),
{
    by_weight_orders(all);
    let kept = strongest_of(all);
    let used = if all.len() < 4 { all.len() as int } else { 4 };
    let ordered = by_weight(all);
    let rest = ordered.skip(used);
    assert(kept.take(used) =~= ordered.take(used));
    assert(ordered =~= ordered.take(used) + rest);
    vstd::seq_lib::lemma_multiset_commutative(ordered.take(used), rest);
    rest
}

/// Two vertices share an edge exactly if some triangle has them at two
/// different corners.
pub proof fn edges_join_corners_of_a_triangle(indices: Seq<u32>, t: nat, a: u32, b: u32)
    requires
        3 * t <= indices.len(),
    ensures
        share_edge(indices, t, a, b) <==> exists|k: int, i: int, j: int|
            0 <= k < t && 0 <= i < 3 && 0 <= j < 3 && i != j && #[trigger] corner(indices, k, i)
                == a && #[trigger] corner(indices, k, j) == b,
    decreases t,
{
    if t > 0 {
        edges_join_corners_of_a_triangle(indices, (t - 1) as nat, a, b);
        let k = t - 1;
        assert(corner(indices, k, 0) == indices[3 * t - 3]);
        assert(corner(indices, k, 1) == indices[3 * t - 2]);
        assert(corner(indices, k, 2) == indices[3 * t - 1]);
        if exists|k: int, i: int, j: int|
            0 <= k < t && 0 <= i < 3 && 0 <= j < 3 && i != j && #[trigger] corner(indices, k, i)
                == a && #[trigger] corner(indices, k, j) == b {
            let (q, i, j) = choose|k: int, i: int, j: int|
                0 <= k < t && 0 <= i < 3 && 0 <= j < 3 && i != j && #[trigger] corner(indices, k, i)
                    == a && #[trigger] corner(indices, k, j) == b;
            if q == k {
                assert(i == 0 || i == 1 || i == 2);
                assert(j == 0 || j == 1 || j == 2);
            }
        }
    }
}

/// Corner `i` of triangle `k`.
pub open spec fn corner(indices: Seq<u32>, k: int, i: int) -> u32 {
    indices[3 * k + i]
}

/// Each bound of a box is met by a vertex, or is an infinity that stands for
/// none.
pub proof fn bounds_are_met(vertices: Seq<RigVertex>, axis: int, n: nat)
    requires
        n <= vertices.len(),
    ensures
        lowest(vertices, axis, n).bits == 0x7F80_0000 || exists|i: int|
            0 <= i < n && lowest(vertices, axis, n) == (#[trigger] vertices[i]).position[axis],
        highest(vertices, axis, n).bits == 0xFF80_0000 || exists|i: int|
            0 <= i < n && highest(vertices, axis, n) == (#[trigger] vertices[i]).position[axis],
    decreases n,
{
    if n > 0 {
        bounds_are_met(vertices, axis, (n - 1) as nat);
        let last = vertices[n - 1].position[axis];
        let low = lowest(vertices, axis, (n - 1) as nat);
        let high = highest(vertices, axis, (n - 1) as nat);
        if lowest(vertices, axis, n) == low && low.bits != 0x7F80_0000 {
            let i = choose|i: int| 0 <= i < n - 1 && low == (#[trigger] vertices[i]).position[axis];
            assert(vertices[i].position[axis] == lowest(vertices, axis, n));
        }
        if highest(vertices, axis, n) == high && high.bits != 0xFF80_0000 {
            let i = choose|i: int|
                0 <= i < n - 1 && high == (#[trigger] vertices[i]).position[axis];
            assert(vertices[i].position[axis] == highest(vertices, axis, n));
        }
    }
}

/// The weight of a bone is that of the first slot which names the bone and
/// carries weight; without such a slot it is zero.
pub proof fn first_slot_gives_the_weight(set: Seq<Influence>, bone: u16, k: int, n: nat)
    requires
        0 <= k <= n <= set.len(),
        forall|j: int|
            0 <= j < k ==> (#[trigger] set[j]).bone != bone || !Scalar::zero().spec_lt(
                set[j].weight,
            ),
    ensures
        k < n && set[k].bone == bone && Scalar::zero().spec_lt(set[k].weight) ==> weight_for(
            set,
            bone,
            n,
        ) == set[k].weight,
        k == n ==> weight_for(set, bone, n).bits == 0,
    decreases n,
{
    if k < n && set[k].bone == bone && Scalar::zero().spec_lt(set[k].weight) {
        assert(feeds(set[k], bone));
        if k < n - 1 {
            first_slot_gives_the_weight(set, bone, k, (n - 1) as nat);
        }
    }
}

/// The other bones' slots are exactly the slots that carry weight and name
/// another bone.
pub proof fn other_slots_name_other_bones(set: Seq<Influence>, bone: u16, slot: Influence)
    ensures
        others_of(set, bone).contains(slot) <==> set.contains(slot) && slot.bone != bone
            && Scalar::zero().spec_lt(slot.weight),
{
    let p = |slot: Influence| slot.weighted() && slot.bone != bone;
    broadcast use Seq::lemma_filter_contains, Seq::lemma_filter_contains_rev, Seq::lemma_filter_pred;

    if set.contains(slot) && p(slot) {
        let k = set.index_of(slot);
        assert(set.filter(p).contains(set[k]));
    }
    if others_of(set, bone).contains(slot) {
        let k = set.filter(p).index_of(slot);
        assert(p(set.filter(p)[k]));
    }
}

/// A paint stroke that adds nothing ends nowhere; any other takes the weight to
/// the number between zero and one that lies nearest to where it would raise
/// it.
pub proof fn strokes_end_between_zero_and_one(delta: Scalar, raised: Scalar)
    requires
        !raised.nan(),
    ensures
        delta.spec_le(Scalar::zero()) && Scalar::zero().spec_le(delta) <==> stroke_end(
            delta,
            raised,
        ) is None,
        stroke_end(delta, raised) matches Some(w) ==> scalar::is_nearest(
            w,
            raised,
            Scalar { bits: 0 },
            Scalar { bits: 0x3F80_0000 },
        ),
{
}

/// Clearing negative weights leaves no weight below zero, keeps every weight
/// that was not, and keeps the bone.
pub proof fn cleared_weights_are_not_negative(slot: Influence)
    ensures
        floored(slot).bone == slot.bone,
        !floored(slot).weight.spec_lt(Scalar::zero()),
        !slot.weight.spec_lt(Scalar::zero()) ==> floored(slot).weight == slot.weight,
        slot.weight.spec_lt(Scalar::zero()) ==> floored(slot).weight.bits == 0,
{
}

/// Where the sum of weights is positive every slot ends with its own share;
/// otherwise no slot changes, and so sharing out what the shares already are
/// changes nothing.
pub proof fn slots_get_their_own_shares(set: Seq<Influence>, sum: Scalar, shares: Seq<Scalar>)
    requires
        shares.len() == set.len(),
    ensures
        Scalar::zero().spec_lt(sum) ==> shared_out(set, sum, shares).map_values(
            |s: Influence| s.weight,
        ) == shares,
        !Scalar::zero().spec_lt(sum) ==> shared_out(set, sum, shares) == set,
        shares == set.map_values(|s: Influence| s.weight) ==> shared_out(set, sum, shares) == set,
{
    if Scalar::zero().spec_lt(sum) {
        assert(shared_out(set, sum, shares).map_values(|s: Influence| s.weight) =~= shares);
    }
    if shares == set.map_values(|s: Influence| s.weight) {
        assert forall|k: int| 0 <= k < set.len() implies shared_out(set, sum, shares)[k]
            == set[k] by {
            assert(shares[k] == set[k].weight);
        }
        assert(shared_out(set, sum, shares) =~= set);
    }
}

/// Slots without any weight have none that carries weight, and where all weights
/// are numbers the one says the other.
pub proof fn weightless_sets_have_no_weight(set: Seq<Influence>)
    ensures
        all_weightless(set) ==> !has_weight(set),
        (forall|k: int| 0 <= k < set.len() ==> !(#[trigger] set[k]).weight.nan()) ==> (
        all_weightless(set) <==> !has_weight(set)),
{
    if !all_weightless(set) {
        let k = choose|k: int|
            0 <= k < set.len() && !(#[trigger] set[k]).weight.spec_le(Scalar::zero());
        if !set[k].weight.nan() {
            assert(set[k].weighted());
        }
    }
}

} // verus!
