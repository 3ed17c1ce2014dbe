//! Vertex selection tools.
//!
//! A selection is a mask over mesh vertices. Screen tools (marquee, lasso,
//! brush) work on projected vertices; topological tools (grow, shrink, linked)
//! walk the mesh adjacency; semantic tools read the influences.
use vstd::prelude::*;
use crate::listing;
use crate::mesh::SkinnedMesh;
use crate::mesh;
use crate::scalar::Scalar;

verus! {

/// How a tool combines with the existing selection.
#[derive(Clone, Copy, Debug, PartialEq, Eq, Structural)]
pub enum SelectMode {
    /// Discard the old selection and use only the new hits.
    Replace,
    /// Unite the new hits with the selection.
    Add,
    /// Remove the new hits from the selection.
    Subtract,
}

/// A selection mask over a mesh's vertices.
#[derive(Clone, Debug)]
pub struct VertexSelection {
    mask: Vec<bool>,
}

impl View for VertexSelection {
    type V = Seq<bool>;

    closed spec fn view(&self) -> Seq<bool> {
        self.mask@
    }
}

/// The selected positions of a mask, in ascending order.
pub open spec fn selected(mask: Seq<bool>) -> Seq<int> {
    listing::indices_where(mask.len(), |v: int| mask[v])
}

/// The selected vertex numbers of a mask, in ascending order.
pub open spec fn selected_numbers(mask: Seq<bool>) -> Seq<u32> {
    listing::as_u32(selected(mask))
}

/// Whether `v` is in the mask and selected.
pub open spec fn is_selected(mask: Seq<bool>, v: int) -> bool {
    0 <= v < mask.len() && mask[v]
}

/// Whether every selected vertex has a number of 32 bits.
pub open spec fn numbered(mask: Seq<bool>) -> bool {
    forall|v: int| #[trigger] is_selected(mask, v) ==> v <= u32::MAX
}

/// Whether a list of vertex numbers names `v`.
pub open spec fn names(hits: Seq<u32>, v: int) -> bool {
    exists|k: int| 0 <= k < hits.len() && #[trigger] hits[k] == v
}

/// The mask after new hits under a combine mode.
pub open spec fn applied(mask: Seq<bool>, hits: Seq<u32>, mode: SelectMode) -> Seq<bool> {
    Seq::new(
        mask.len(),
        |v: int|
            match mode {
                SelectMode::Replace => names(hits, v),
                SelectMode::Add => mask[v] || names(hits, v),
                SelectMode::Subtract => mask[v] && !names(hits, v),
            },
    )
}

impl VertexSelection {
    /// Nothing selected out of `vertex_count` vertices.
    pub fn new(vertex_count: usize) -> (sel: VertexSelection)
        ensures
            sel@ == Seq::new(vertex_count as nat, |v: int| false),
    {
        let mut mask: Vec<bool> = Vec::new();
        mask.resize(vertex_count, false);
        assert(mask@ =~= Seq::new(vertex_count as nat, |v: int| false));
        VertexSelection { mask }
    }

    /// Number of vertices the mask covers.
    pub fn len(&self) -> (n: usize)
        ensures
            n == self@.len(),
    {
        self.mask.len()
    }

    /// Whether the mask covers no vertex.
    pub fn is_empty(&self) -> (r: bool)
        ensures
            r == (self@.len() == 0),
    {
        self.mask.len() == 0
    }

    /// Number of selected vertices.
    pub fn count(&self) -> (n: usize)
        ensures
            n == selected(self@).len(),
    {
        let ghost p = |v: int| self@[v];
        let mut n: usize = 0;
        let mut v: usize = 0;
        while v < self.mask.len()
            invariant
                v <= self.mask.len(),
                self.mask@ == self@,
                p == (|v: int| self@[v]),
                n == listing::indices_where(v as nat, p).len(),
                n <= v,
            decreases self.mask.len() - v,
        {
            assert(p(v as int) == self.mask@[v as int]);
            if self.mask[v] {
                n += 1;
            }
            v += 1;
        }
        n
    }

    /// Whether a vertex is selected; vertices outside the mask are not.
    pub fn contains(&self, v: usize) -> (r: bool)
        ensures
            r == is_selected(self@, v as int),
    {
        v < self.mask.len() && self.mask[v]
    }

    /// Select or deselect a vertex; vertices outside the mask are ignored.
    pub fn set(&mut self, v: usize, on: bool)
        ensures
            final(self)@ == (if v < old(self)@.len() {
                old(self)@.update(v as int, on)
            } else {
                old(self)@
            }),
    {
        if v < self.mask.len() {
            self.mask[v] = on;
        }
    }

    /// Deselect everything.
    pub fn clear(&mut self)
        ensures
            final(self)@ == Seq::new(old(self)@.len(), |v: int| false),
    {
        let mut v: usize = 0;
        while v < self.mask.len()
            invariant
                v <= self.mask.len(),
                self.mask@.len() == old(self)@.len(),
                forall|w: int| 0 <= w < v ==> !self.mask@[w],
            decreases self.mask.len() - v,
        {
            self.mask[v] = false;
            v += 1;
        }
        assert(self@ =~= Seq::new(old(self)@.len(), |v: int| false));
    }

    /// Select everything.
    pub fn select_all(&mut self)
        ensures
            final(self)@ == Seq::new(old(self)@.len(), |v: int| true),
    {
        let mut v: usize = 0;
        while v < self.mask.len()
            invariant
                v <= self.mask.len(),
                self.mask@.len() == old(self)@.len(),
                forall|w: int| 0 <= w < v ==> self.mask@[w],
            decreases self.mask.len() - v,
        {
            self.mask[v] = true;
            v += 1;
        }
        assert(self@ =~= Seq::new(old(self)@.len(), |v: int| true));
    }

    /// Exchange selected and unselected vertices.
    pub fn invert(&mut self)
        ensures
            final(self)@ == old(self)@.map_values(|on: bool| !on),
    {
        let mut v: usize = 0;
        while v < self.mask.len()
            invariant
                v <= self.mask.len(),
                self.mask@.len() == old(self)@.len(),
                forall|w: int| 0 <= w < v ==> self.mask@[w] == !old(self)@[w],
                forall|w: int| v <= w < self.mask@.len() ==> self.mask@[w] == old(self)@[w],
            decreases self.mask.len() - v,
        {
            let on = self.mask[v];
            self.mask[v] = !on;
            v += 1;
        }
        assert(self@ =~= old(self)@.map_values(|on: bool| !on));
    }

    /// Numbers of all selected vertices, in ascending order.
    pub fn indices(&self) -> (r: Vec<u32>)
        ensures
            r@ == selected_numbers(self@),
    {
        let ghost p = |v: int| self@[v];
        let mut r: Vec<u32> = Vec::new();
        let mut v: usize = 0;
        while v < self.mask.len()
            invariant
                v <= self.mask.len(),
                self.mask@ == self@,
                p == (|v: int| self@[v]),
                r@ == listing::as_u32(listing::indices_where(v as nat, p)),
            decreases self.mask.len() - v,
        {
            assert(p(v as int) == self.mask@[v as int]);
            if self.mask[v] {
                r.push(v as u32);
                assert(r@ =~= listing::as_u32(listing::indices_where((v + 1) as nat, p)));
            }
            v += 1;
        }
        r
    }

    /// Numbers of all selected vertices, in ascending order, to walk over.
    pub fn iter(&self) -> (r: Vec<u32>)
        ensures
            r@ == selected_numbers(self@),
    {
        self.indices()
    }

    fn set_each(&mut self, hits: &[u32], on: bool)
        ensures
            final(self)@.len() == old(self)@.len(),
            forall|v: int|
                0 <= v < old(self)@.len() ==> #[trigger] final(self)@[v] == (if names(hits@, v) {
                    on
                } else {
                    old(self)@[v]
                }),
    {
        let mut k: usize = 0;
        while k < hits.len()
            invariant
                k <= hits.len(),
                self@.len() == old(self)@.len(),
                forall|v: int|
                    0 <= v < old(self)@.len() ==> #[trigger] self@[v] == (if names(
                        hits@.take(k as int),
                        v,
                    ) {
                        on
                    } else {
                        old(self)@[v]
                    }),
            decreases hits.len() - k,
        {
            self.set(hits[k] as usize, on);
            proof {
                let before = hits@.take(k as int);
                let after = hits@.take(k + 1);
                assert forall|v: int| names(after, v) <==> names(before, v) || v == hits@[k as int] by {
                    if names(before, v) {
                        let j = choose|j: int| 0 <= j < before.len() && before[j] == v;
                        assert(after[j] == v);
                    }
                    assert(after[k as int] == hits@[k as int]);
                    if names(after, v) && v != hits@[k as int] {
                        let j = choose|j: int| 0 <= j < after.len() && after[j] == v;
                        assert(before[j] == v);
                    }
                }
            }
            k += 1;
        }
        assert(hits@.take(k as int) =~= hits@);
    }

    /// Apply newly hit vertices under the given combine mode.
    pub fn apply(&mut self, hits: &[u32], mode: SelectMode)
        ensures
            final(self)@ == applied(old(self)@, hits@, mode),
    {
        match mode {
            SelectMode::Replace => {
                self.clear();
                self.set_each(hits, true);
            },
            SelectMode::Add => {
                self.set_each(hits, true);
            },
            SelectMode::Subtract => {
                self.set_each(hits, false);
            },
        }
        assert(self@ =~= applied(old(self)@, hits@, mode));
    }

    /// Whether applying newly hit vertices under a combine mode changes the
    /// selection.
    pub fn changes(&self, hits: &[u32], mode: SelectMode) -> (r: bool)
        ensures
            r == (applied(self@, hits@, mode) != self@),
    {
        let mut after = VertexSelection { mask: self.mask.clone() };
        assert(after@ =~= self@);
        after.apply(hits, mode);
        let mut v: usize = 0;
        while v < self.mask.len()
            invariant
                v <= self.mask@.len(),
                after@ == applied(self@, hits@, mode),
                after@.len() == self@.len(),
                forall|w: int| 0 <= w < v ==> after@[w] == self@[w],
            decreases self.mask@.len() - v,
        {
            if after.mask[v] != self.mask[v] {
                assert(after@[v as int] != self@[v as int]);
                return true;
            }
            v += 1;
        }
        assert(after@ =~= self@);
        false
    }

    /// Cover another number of vertices, keeping the bits that both cover.
    pub fn resize(&mut self, vertex_count: usize)
        ensures
            final(self)@ == Seq::new(vertex_count as nat, |v: int| is_selected(old(self)@, v)),
    {
        self.mask.resize(vertex_count, false);
        assert(self@ =~= Seq::new(vertex_count as nat, |v: int| is_selected(old(self)@, v)));
    }
}

impl Default for VertexSelection {
    /// A mask over no vertices.
    fn default() -> (sel: VertexSelection)
        ensures
            sel@.len() == 0,
    {
        VertexSelection { mask: Vec::new() }
    }
}

/// Inverting twice gives the selection back.
pub proof fn invert_is_an_involution(mask: Seq<bool>)
    ensures
        mask.map_values(|on: bool| !on).map_values(|on: bool| !on) == mask,
{
    assert(mask.map_values(|on: bool| !on).map_values(|on: bool| !on) =~= mask);
}

/// Adding hits and then subtracting the same hits leaves what was selected
/// outside them; subtracting and then adding leaves them all selected.
pub proof fn add_and_subtract_cancel(mask: Seq<bool>, hits: Seq<u32>)
    ensures
        applied(applied(mask, hits, SelectMode::Add), hits, SelectMode::Subtract) == applied(
            mask,
            hits,
            SelectMode::Subtract,
        ),
        applied(applied(mask, hits, SelectMode::Subtract), hits, SelectMode::Add) == applied(
            mask,
            hits,
            SelectMode::Add,
        ),
        applied(Seq::new(mask.len(), |v: int| false), hits, SelectMode::Add) == applied(
            mask,
            hits,
            SelectMode::Replace,
        ),
{
    assert(applied(applied(mask, hits, SelectMode::Add), hits, SelectMode::Subtract) =~= applied(
        mask,
        hits,
        SelectMode::Subtract,
    ));
    assert(applied(applied(mask, hits, SelectMode::Subtract), hits, SelectMode::Add) =~= applied(
        mask,
        hits,
        SelectMode::Add,
    ));
    assert(applied(Seq::new(mask.len(), |v: int| false), hits, SelectMode::Add) =~= applied(
        mask,
        hits,
        SelectMode::Replace,
    ));
}

/// Replacing the selection by the list of what is selected changes nothing.
pub proof fn replace_by_selected_is_identity(mask: Seq<bool>)
    requires
        numbered(mask),
    ensures
        applied(mask, selected_numbers(mask), SelectMode::Replace) == mask,
{
    let p = |v: int| mask[v];
    assert forall|v: int| 0 <= v < mask.len() implies names(selected_numbers(mask), v) == mask[v] by {
        names_selected(mask, v);
    }
    assert(applied(mask, selected_numbers(mask), SelectMode::Replace) =~= mask);
}

/// The list of selected numbers names exactly the selected vertices.
pub proof fn names_selected(mask: Seq<bool>, v: int)
    requires
        numbered(mask),
    ensures
        names(selected_numbers(mask), v) == is_selected(mask, v),
{
    let p = |v: int| mask[v];
    let list = selected(mask);
    listing::listed_iff_satisfied(mask.len(), p, v);
    listing::listed_ascending(mask.len(), p);
    if is_selected(mask, v) {
        let k = list.index_of(v);
        assert(list[k] == v && v <= u32::MAX);
        assert(selected_numbers(mask)[k] == v);
    }
    if names(selected_numbers(mask), v) {
        let k = choose|k: int|
            0 <= k < selected_numbers(mask).len() && #[trigger] selected_numbers(mask)[k] == v;
        assert(is_selected(mask, list[k]));
        assert(selected_numbers(mask)[k] == list[k] as u32);
        assert(list.contains(list[k]));
    }
}

// ── topological tools ─────────────────────────────────────────────────────────

/// The neighbours of the first `n` of some vertices, vertex by vertex.
pub open spec fn neighbours_of(graph: Seq<Seq<u32>>, seeds: Seq<u32>, n: nat) -> Seq<u32>
    decreases n,
{
    if n == 0 {
        Seq::empty()
    } else {
        neighbours_of(graph, seeds, (n - 1) as nat) + graph[seeds[n - 1] as int]
    }
}

/// Of the first `n` candidates those that a walk newly selects: the ones that
/// were not selected, each when it is first met. A candidate outside the mask
/// is never selected and so counts every time.
pub open spec fn newly_met(mask: Seq<bool>, candidates: Seq<u32>, n: nat) -> Seq<u32>
    decreases n,
{
    if n == 0 {
        Seq::empty()
    } else {
        let met = newly_met(mask, candidates, (n - 1) as nat);
        let c = candidates[n - 1];
        if c < mask.len() && (mask[c as int] || met.contains(c)) {
            met
        } else {
            met.push(c)
        }
    }
}

/// What growing by one ring adds, in the order of the walk.
pub open spec fn ring_of(graph: Seq<Seq<u32>>, mask: Seq<bool>) -> Seq<u32> {
    let seeds = selected_numbers(mask);
    let candidates = neighbours_of(graph, seeds, seeds.len());
    newly_met(mask, candidates, candidates.len())
}

/// Every selected vertex has a neighbour list.
pub open spec fn seeds_in_range(graph: Seq<Seq<u32>>, mask: Seq<bool>) -> bool {
    forall|k: int|
        0 <= k < selected_numbers(mask).len() ==> (#[trigger] selected_numbers(mask)[k])
            < graph.len()
}

proof fn added_step(mask: Seq<bool>, met: Seq<u32>, c: u32)
    ensures
        c < mask.len() ==> (applied(mask, met, SelectMode::Add)[c as int] == (mask[c as int]
            || met.contains(c))),
        applied(mask, met.push(c), SelectMode::Add) == (if c < mask.len() {
            applied(mask, met, SelectMode::Add).update(c as int, true)
        } else {
            applied(mask, met, SelectMode::Add)
        }),
{
    if c < mask.len() {
        if met.contains(c) {
            let k = met.index_of(c);
            assert(met[k] == c as int);
            assert(names(met, c as int));
        }
        if names(met, c as int) {
            let k = choose|k: int| 0 <= k < met.len() && #[trigger] met[k] == c as int;
            assert(met[k] == c);
        }
    }
    let more = met.push(c);
    assert forall|v: int| names(more, v) <==> names(met, v) || v == c by {
        if names(met, v) {
            let k = choose|k: int| 0 <= k < met.len() && #[trigger] met[k] == v;
            assert(more[k] == v);
        }
        assert(more[met.len() as int] == c);
        if names(more, v) && v != c {
            let k = choose|k: int| 0 <= k < more.len() && #[trigger] more[k] == v;
            assert(met[k] == v);
        }
    }
    assert(applied(mask, more, SelectMode::Add) =~= (if c < mask.len() {
        applied(mask, met, SelectMode::Add).update(c as int, true)
    } else {
        applied(mask, met, SelectMode::Add)
    }));
}

proof fn newly_met_prefix(mask: Seq<bool>, a: Seq<u32>, b: Seq<u32>, n: nat)
    requires
        n <= a.len(),
        n <= b.len(),
        forall|k: int| 0 <= k < n ==> a[k] == b[k],
    ensures
        newly_met(mask, a, n) == newly_met(mask, b, n),
    decreases n,
{
    if n > 0 {
        newly_met_prefix(mask, a, b, (n - 1) as nat);
    }
}

/// Grow the selection by one adjacency ring: every neighbour of a selected
/// vertex becomes selected. Returns the newly added vertices.
pub fn grow(mesh: &mut SkinnedMesh, sel: &mut VertexSelection) -> (added: Vec<u32>)
    requires
        old(mesh).adjacency_ready(),
        seeds_in_range(old(mesh).neighbours(), old(sel)@),
    ensures
        added@ == ring_of(old(mesh).neighbours(), old(sel)@),
        final(sel)@ == applied(old(sel)@, added@, SelectMode::Add),
        final(mesh).vertices == old(mesh).vertices,
        final(mesh).indices == old(mesh).indices,
        final(mesh).influences == old(mesh).influences,
        final(mesh).cached() == Some(old(mesh).neighbours()),
{
    let adj = mesh.adjacency();
    let ghost graph = mesh::graph_of(adj@);
    let ghost mask = sel@;
    let seeds = sel.indices();
    let mut added: Vec<u32> = Vec::new();
    let mut i: usize = 0;
    assert(sel@ =~= applied(mask, added@, SelectMode::Add));
    while i < seeds.len()
        invariant
            i <= seeds.len(),
            seeds@ == selected_numbers(mask),
            seeds_in_range(graph, mask),
            graph == mesh::graph_of(adj@),
            sel@ == applied(mask, added@, SelectMode::Add),
            added@ == newly_met(
                mask,
                neighbours_of(graph, seeds@, i as nat),
                neighbours_of(graph, seeds@, i as nat).len(),
            ),
        decreases seeds.len() - i,
    {
        let v: usize = seeds[i] as usize;
        let ghost before = neighbours_of(graph, seeds@, i as nat);
        let ghost after = neighbours_of(graph, seeds@, (i + 1) as nat);
        assert(seeds@[i as int] < graph.len());
        assert(graph[v as int] == adj@[v as int]@);
        assert(after == before + adj@[v as int]@);
        proof {
            newly_met_prefix(mask, before, after, before.len());
        }
        let mut k: usize = 0;
        while k < adj[v].len()
            invariant
                v < adj@.len(),
                k <= adj@[v as int]@.len(),
                after == before + adj@[v as int]@,
                sel@ == applied(mask, added@, SelectMode::Add),
                added@ == newly_met(mask, after, (before.len() + k) as nat),
            decreases adj@[v as int]@.len() - k,
        {
            let n: u32 = adj[v][k];
            assert(after[before.len() + k] == n);
            proof {
                added_step(mask, added@, n);
            }
            if !sel.contains(n as usize) {
                sel.set(n as usize, true);
                added.push(n);
            }
            k += 1;
        }
        i += 1;
    }
    added
}

/// Whether some neighbour of `v` is not selected.
pub open spec fn on_border(graph: Seq<Seq<u32>>, mask: Seq<bool>, v: u32) -> bool {
    exists|k: int|
        0 <= k < graph[v as int].len() && !is_selected(mask, #[trigger] graph[v as int][k] as int)
}

/// The selected vertices that have an unselected neighbour, in ascending order.
pub open spec fn border_of(graph: Seq<Seq<u32>>, mask: Seq<bool>) -> Seq<u32> {
    selected_numbers(mask).filter(|v: u32| on_border(graph, mask, v))
}

/// Shrink the selection by one ring: every selected vertex that has an
/// unselected neighbour is removed. Returns the removed vertices.
pub fn shrink(mesh: &mut SkinnedMesh, sel: &mut VertexSelection) -> (removed: Vec<u32>)
    requires
        old(mesh).adjacency_ready(),
        seeds_in_range(old(mesh).neighbours(), old(sel)@),
    ensures
        removed@ == border_of(old(mesh).neighbours(), old(sel)@),
        final(sel)@ == applied(old(sel)@, removed@, SelectMode::Subtract),
        final(mesh).vertices == old(mesh).vertices,
        final(mesh).indices == old(mesh).indices,
        final(mesh).influences == old(mesh).influences,
        final(mesh).cached() == Some(old(mesh).neighbours()),
{
    let adj = mesh.adjacency();
    let ghost graph = mesh::graph_of(adj@);
    let ghost mask = sel@;
    let ghost keep = |v: u32| on_border(graph, mask, v);
    let seeds = sel.indices();
    let mut removed: Vec<u32> = Vec::new();
    let mut i: usize = 0;
    proof {
        reveal(Seq::filter);
        assert(seeds@.take(0) =~= Seq::empty());
    }
    while i < seeds.len()
        invariant
            i <= seeds.len(),
            seeds@ == selected_numbers(mask),
            seeds_in_range(graph, mask),
            graph == mesh::graph_of(adj@),
            sel@ == mask,
            keep == (|v: u32| on_border(graph, mask, v)),
            removed@ == seeds@.take(i as int).filter(keep),
        decreases seeds.len() - i,
    {
        let v: usize = seeds[i] as usize;
        assert(seeds@[i as int] < graph.len());
        assert(graph[v as int] == adj@[v as int]@);
        let mut border = false;
        let mut k: usize = 0;
        while k < adj[v].len()
            invariant
                v < adj@.len(),
                k <= adj@[v as int]@.len(),
                sel@ == mask,
                graph[v as int] == adj@[v as int]@,
                border == (exists|j: int|
                    0 <= j < k && !is_selected(mask, #[trigger] graph[v as int][j] as int)),
            decreases adj@[v as int]@.len() - k,
        {
            if !sel.contains(adj[v][k] as usize) {
                border = true;
                assert(!is_selected(mask, graph[v as int][k as int] as int));
            }
            k += 1;
        }
        assert(border == on_border(graph, mask, seeds@[i as int]));
        proof {
            reveal(Seq::filter);
            assert(seeds@.take(i + 1).drop_last() =~= seeds@.take(i as int));
            assert(keep(seeds@[i as int]) == border);
        }
        if border {
            removed.push(seeds[i]);
        }
        i += 1;
    }
    assert(seeds@.take(i as int) =~= seeds@);
    sel.set_each(removed.as_slice(), false);
    assert(sel@ =~= applied(mask, removed@, SelectMode::Subtract));
    removed
}

/// Growing keeps everything that was selected, and shrinking selects nothing
/// that was not.
pub proof fn grow_extends_and_shrink_restricts(graph: Seq<Seq<u32>>, mask: Seq<bool>, v: int)
    requires
        0 <= v < mask.len(),
    ensures
        mask[v] ==> applied(mask, ring_of(graph, mask), SelectMode::Add)[v],
        applied(mask, border_of(graph, mask), SelectMode::Subtract)[v] ==> mask[v],
{
}

/// Whether `v` is a neighbour of a selected vertex.
pub open spec fn touches_selected(graph: Seq<Seq<u32>>, mask: Seq<bool>, v: u32) -> bool {
    exists|s: int| is_selected(mask, s) && (#[trigger] graph[s]).contains(v)
}

proof fn neighbours_of_contains(graph: Seq<Seq<u32>>, seeds: Seq<u32>, n: nat, v: u32)
    requires
        n <= seeds.len(),
    ensures
        neighbours_of(graph, seeds, n).contains(v) <==> exists|k: int|
            0 <= k < n && (#[trigger] graph[seeds[k] as int]).contains(v),
    decreases n,
{
    if n > 0 {
        neighbours_of_contains(graph, seeds, (n - 1) as nat, v);
        let before = neighbours_of(graph, seeds, (n - 1) as nat);
        let list = graph[seeds[n - 1] as int];
        let all = before + list;
        if before.contains(v) {
            assert(all[before.index_of(v)] == v);
        }
        if list.contains(v) {
            assert(all[before.len() + list.index_of(v)] == v);
        }
        if all.contains(v) {
            let k = all.index_of(v);
            if k < before.len() {
                assert(before[k] == v);
            } else {
                assert(list[k - before.len()] == v);
                assert(graph[seeds[n - 1] as int].contains(v));
            }
        }
        assert(neighbours_of(graph, seeds, n).contains(v) <==> before.contains(v) || list.contains(v));
        if exists|k: int| 0 <= k < n && (#[trigger] graph[seeds[k] as int]).contains(v) {
            let k = choose|k: int| 0 <= k < n && (#[trigger] graph[seeds[k] as int]).contains(v);
            assert(k < n - 1 || list.contains(v));
        }
    }
}

proof fn newly_met_contains(mask: Seq<bool>, candidates: Seq<u32>, n: nat, v: u32)
    requires
        n <= candidates.len(),
        v < mask.len(),
        !mask[v as int],
    ensures
        newly_met(mask, candidates, n).contains(v) <==> candidates.take(n as int).contains(v),
    decreases n,
{
    if n > 0 {
        newly_met_contains(mask, candidates, (n - 1) as nat, v);
        let met = newly_met(mask, candidates, (n - 1) as nat);
        let c = candidates[n - 1];
        let before = candidates.take(n - 1);
        let after = candidates.take(n as int);
        if before.contains(v) {
            assert(after[before.index_of(v)] == v);
        }
        assert(after[n - 1] == c);
        if after.contains(v) && c != v {
            assert(before[after.index_of(v)] == v);
        }
        if met.contains(v) {
            assert(met.push(c)[met.index_of(v)] == v);
        }
        assert(met.push(c)[met.len() as int] == c);
        if met.push(c).contains(v) && c != v {
            assert(met[met.push(c).index_of(v)] == v);
        }
    }
}

/// After growing, a vertex is selected exactly if it was selected or is a
/// neighbour of a selected vertex.
pub proof fn grow_selects_neighbours(graph: Seq<Seq<u32>>, mask: Seq<bool>, v: int)
    requires
        numbered(mask),
        seeds_in_range(graph, mask),
        0 <= v < mask.len(),
    ensures
        applied(mask, ring_of(graph, mask), SelectMode::Add)[v] <==> mask[v] || v <= u32::MAX
            && touches_selected(graph, mask, v as u32),
{
    let seeds = selected_numbers(mask);
    let candidates = neighbours_of(graph, seeds, seeds.len());
    let ring = ring_of(graph, mask);
    if !mask[v] && v <= u32::MAX {
        newly_met_contains(mask, candidates, candidates.len(), v as u32);
        assert(candidates.take(candidates.len() as int) =~= candidates);
        neighbours_of_contains(graph, seeds, seeds.len(), v as u32);
        if ring.contains(v as u32) {
            assert(ring[ring.index_of(v as u32)] == v);
            assert(names(ring, v));
            let k = choose|k: int|
                0 <= k < seeds.len() && (#[trigger] graph[seeds[k] as int]).contains(v as u32);
            assert(seeds[k] == seeds[k] as int);
            assert(names(seeds, seeds[k] as int));
            names_selected(mask, seeds[k] as int);
        }
        if names(ring, v) {
            let k = choose|k: int| 0 <= k < ring.len() && #[trigger] ring[k] == v;
            assert(ring[k] == v as u32);
        }
        if touches_selected(graph, mask, v as u32) {
            let s = choose|s: int|
                is_selected(mask, s) && (#[trigger] graph[s]).contains(v as u32);
            names_selected(mask, s);
            let k = choose|k: int| 0 <= k < seeds.len() && #[trigger] seeds[k] == s;
            assert(graph[seeds[k] as int].contains(v as u32));
        }
    }
}

/// After shrinking, a vertex is selected exactly if it was selected and all its
/// neighbours were.
pub proof fn shrink_keeps_interior(graph: Seq<Seq<u32>>, mask: Seq<bool>, v: int)
    requires
        numbered(mask),
        0 <= v < mask.len(),
    ensures
        applied(mask, border_of(graph, mask), SelectMode::Subtract)[v] <==> mask[v] && !on_border(
            graph,
            mask,
            v as u32,
        ),
{
    let seeds = selected_numbers(mask);
    let keep = |w: u32| on_border(graph, mask, w);
    let border = border_of(graph, mask);
    if mask[v] {
        names_selected(mask, v);
        let k = choose|k: int| 0 <= k < seeds.len() && #[trigger] seeds[k] == v;
        assert(seeds[k] == v as u32);
        if keep(seeds[k]) {
            seeds.lemma_filter_contains(keep, k);
            assert(border[border.index_of(v as u32)] == v);
        }
        if names(border, v) {
            let j = choose|j: int| 0 <= j < border.len() && #[trigger] border[j] == v;
            assert(border[j] == v as u32);
            seeds.lemma_filter_pred(keep, j);
        }
    }
}

/// Every listed neighbour is covered by the mask and has a neighbour list.
pub open spec fn neighbours_covered(graph: Seq<Seq<u32>>, mask: Seq<bool>) -> bool {
    forall|v: int, k: int|
        0 <= v < graph.len() && 0 <= k < graph[v].len() ==> (#[trigger] graph[v][k]) < mask.len()
            && graph[v][k] < graph.len()
}

/// Growing and then shrinking by one ring keeps what was selected at first.
pub proof fn grow_then_shrink_keeps_selection(graph: Seq<Seq<u32>>, mask: Seq<bool>, v: int)
    requires
        numbered(mask),
        seeds_in_range(graph, mask),
        neighbours_covered(graph, mask),
        is_selected(mask, v),
    ensures
        ({
            let grown = applied(mask, ring_of(graph, mask), SelectMode::Add);
            applied(grown, border_of(graph, grown), SelectMode::Subtract)[v]
        }),
{
    let grown = applied(mask, ring_of(graph, mask), SelectMode::Add);
    names_selected(mask, v);
    let seeds = selected_numbers(mask);
    let j = choose|j: int| 0 <= j < seeds.len() && #[trigger] seeds[j] == v;
    assert(seeds[j] < graph.len());
    assert forall|k: int| 0 <= k < graph[v].len() implies is_selected(
        grown,
        #[trigger] graph[v][k] as int,
    ) by {
        let n = graph[v][k];
        assert(graph[v].contains(n));
        assert(touches_selected(graph, mask, n));
        grow_selects_neighbours(graph, mask, n as int);
    }
    assert(!on_border(graph, grown, v as u32));
    assert forall|u: int| #[trigger] is_selected(grown, u) implies u <= u32::MAX by {
        assert(mask[u] ==> is_selected(mask, u));
    }
    shrink_keeps_interior(graph, grown, v);
}

/// Whether at most `n` steps along edges lead from a selected vertex to `v`.
pub open spec fn reached_within(graph: Seq<Seq<u32>>, mask: Seq<bool>, v: int, n: nat) -> bool
    decreases n,
{
    if n == 0 {
        is_selected(mask, v)
    } else {
        reached_within(graph, mask, v, (n - 1) as nat) || exists|u: int|
            0 <= u < graph.len() && reached_within(graph, mask, u, (n - 1) as nat)
                && names(#[trigger] graph[u], v)
    }
}

/// Whether `v` belongs to a connected component that the selection touches.
pub open spec fn linked(graph: Seq<Seq<u32>>, mask: Seq<bool>, v: int) -> bool {
    exists|n: nat| reached_within(graph, mask, v, n)
}

/// The mask of all vertices linked to the selection.
pub open spec fn linked_mask(graph: Seq<Seq<u32>>, mask: Seq<bool>) -> Seq<bool> {
    Seq::new(mask.len(), |v: int| linked(graph, mask, v))
}

/// A mask that no edge leads out of.
pub open spec fn closed_under_edges(graph: Seq<Seq<u32>>, mask: Seq<bool>) -> bool {
    forall|u: int, k: int|
        0 <= u < graph.len() && is_selected(mask, u) && 0 <= k < graph[u].len() ==> is_selected(
            mask,
            #[trigger] graph[u][k] as int,
        )
}

proof fn closed_holds_reached(graph: Seq<Seq<u32>>, start: Seq<bool>, mask: Seq<bool>, v: int, n: nat)
    requires
        closed_under_edges(graph, mask),
        forall|u: int| is_selected(start, u) ==> #[trigger] is_selected(mask, u),
        reached_within(graph, start, v, n),
    ensures
        is_selected(mask, v),
    decreases n,
{
    if n > 0 {
        if reached_within(graph, start, v, (n - 1) as nat) {
            closed_holds_reached(graph, start, mask, v, (n - 1) as nat);
        } else {
            let u = choose|u: int|
                0 <= u < graph.len() && reached_within(graph, start, u, (n - 1) as nat) && names(
                    #[trigger] graph[u],
                    v,
                );
            closed_holds_reached(graph, start, mask, u, (n - 1) as nat);
            let k = choose|k: int| 0 <= k < graph[u].len() && #[trigger] graph[u][k] == v;
            assert(is_selected(mask, graph[u][k] as int));
        }
    }
}

proof fn linked_step(graph: Seq<Seq<u32>>, mask: Seq<bool>, u: int, k: int)
    requires
        0 <= u < graph.len(),
        0 <= k < graph[u].len(),
        linked(graph, mask, u),
    ensures
        linked(graph, mask, graph[u][k] as int),
{
    let n = choose|n: nat| reached_within(graph, mask, u, n);
    assert(names(graph[u], graph[u][k] as int));
    assert(reached_within(graph, mask, graph[u][k] as int, (n + 1) as nat));
}

/// A walk along the edges from the selection comes to an end: it stays among
/// the vertices that have a neighbour list, and no vertex that the mask does
/// not cover leads to another such one.
pub open spec fn walk_ends(graph: Seq<Seq<u32>>, mask: Seq<bool>) -> bool {
    &&& forall|v: int| #[trigger] linked(graph, mask, v) ==> 0 <= v < graph.len()
    &&& forall|v: int, k: int|
        mask.len() <= v < graph.len() && linked(graph, mask, v) && 0 <= k < graph[v].len()
            ==> (#[trigger] graph[v][k]) < mask.len()
}

/// Where the mask covers all neighbours, every walk comes to an end.
pub proof fn covered_walks_end(graph: Seq<Seq<u32>>, mask: Seq<bool>)
    requires
        forall|v: int| #[trigger] is_selected(mask, v) ==> v < graph.len(),
        neighbours_covered(graph, mask),
    ensures
        walk_ends(graph, mask),
        forall|v: int| #[trigger] linked(graph, mask, v) ==> 0 <= v < mask.len(),
{
    let all = Seq::new(mask.len(), |v: int| v < graph.len());
    assert forall|v: int| #[trigger] linked(graph, mask, v) implies is_selected(all, v) by {
        let n = choose|n: nat| reached_within(graph, mask, v, n);
        closed_holds_reached(graph, mask, all, v, n);
    }
}

/// Number of listed vertices below `n`.
spec fn count_below(list: Seq<u32>, n: nat) -> nat
    decreases list.len(),
{
    if list.len() == 0 {
        0
    } else {
        count_below(list.drop_last(), n) + (if list.last() < n {
            1nat
        } else {
            0nat
        })
    }
}

/// Number of unselected vertices of a mask.
spec fn unselected_count(mask: Seq<bool>) -> nat
    decreases mask.len(),
{
    if mask.len() == 0 {
        0
    } else {
        unselected_count(mask.drop_last()) + (if mask.last() {
            0nat
        } else {
            1nat
        })
    }
}

proof fn selecting_lowers_count(mask: Seq<bool>, v: int)
    requires
        0 <= v < mask.len(),
        !mask[v],
    ensures
        unselected_count(mask.update(v, true)) + 1 == unselected_count(mask),
    decreases mask.len(),
{
    if v == mask.len() - 1 {
        assert(mask.update(v, true).drop_last() =~= mask.drop_last());
    } else {
        selecting_lowers_count(mask.drop_last(), v);
        assert(mask.update(v, true).drop_last() =~= mask.drop_last().update(v, true));
    }
}

/// Flood-fill the connected components that the selection touches. Returns the
/// selected vertices.
pub fn select_linked(mesh: &mut SkinnedMesh, sel: &mut VertexSelection) -> (all: Vec<u32>)
    requires
        old(mesh).adjacency_ready(),
        walk_ends(old(mesh).neighbours(), old(sel)@),
        numbered(old(sel)@),
    ensures
        final(sel)@ == linked_mask(old(mesh).neighbours(), old(sel)@),
        all@ == selected_numbers(final(sel)@),
        final(mesh).vertices == old(mesh).vertices,
        final(mesh).indices == old(mesh).indices,
        final(mesh).influences == old(mesh).influences,
        final(mesh).cached() == Some(old(mesh).neighbours()),
{
    let adj = mesh.adjacency();
    let ghost graph = mesh::graph_of(adj@);
    let ghost start = sel@;
    // What was met so far, with the vertices that the mask does not cover.
    let ghost mut met = start + Seq::new(graph.len(), |v: int| false);
    let mut stack = sel.indices();
    proof {
        assert forall|v: int| #[trigger] is_selected(met, v) implies linked(graph, start, v)
            && names(stack@, v) by {
            assert(is_selected(start, v));
            assert(reached_within(graph, start, v, 0));
            names_selected(start, v);
        }
        assert forall|k: int| 0 <= k < stack@.len() implies is_selected(
            met,
            #[trigger] stack@[k] as int,
        ) by {
            assert(names(stack@, stack@[k] as int));
            names_selected(start, stack@[k] as int);
        }
    }
    while stack.len() > 0
        invariant
            graph == mesh::graph_of(adj@),
            sel@.len() == start.len(),
            met.len() == start.len() + graph.len(),
            sel@ == met.take(start.len() as int),
            walk_ends(graph, start),
            forall|v: int| is_selected(start, v) ==> #[trigger] is_selected(met, v),
            forall|v: int| #[trigger] is_selected(met, v) ==> linked(graph, start, v),
            forall|k: int| 0 <= k < stack@.len() ==> is_selected(met, #[trigger] stack@[k] as int),
            forall|u: int, k: int|
                0 <= u < graph.len() && is_selected(met, u) && !names(stack@, u) && 0 <= k
                    < graph[u].len() ==> is_selected(met, #[trigger] graph[u][k] as int),
        decreases 2 * unselected_count(sel@) + count_below(stack@, start.len()), stack@.len(),
    {
        let ghost whole = stack@;
        let ghost count_before = 2 * unselected_count(sel@) + count_below(whole, start.len());
        let v: usize = match stack.pop() {
            Some(v) => v as usize,
            None => 0,
        };
        let ghost list = graph[v as int];
        let ghost rest = stack@;
        assert(rest =~= whole.drop_last());
        assert(whole[whole.len() - 1] == v as int);
        assert(is_selected(met, v as int));
        assert(linked(graph, start, v as int));
        assert(adj@[v as int]@ == list);
        proof {
            assert forall|u: int| names(whole, u) && u != v implies names(rest, u) by {
                let k = choose|k: int| 0 <= k < whole.len() && #[trigger] whole[k] == u;
                assert(rest[k] == u);
            }
            assert forall|k: int| 0 <= k < rest.len() implies is_selected(
                met,
                #[trigger] rest[k] as int,
            ) by {
                assert(whole[k] == rest[k]);
            }
        }
        let mut i: usize = 0;
        while i < adj[v].len()
            invariant
                v < adj@.len(),
                graph == mesh::graph_of(adj@),
                list == adj@[v as int]@,
                list == graph[v as int],
                i <= list.len(),
                sel@.len() == start.len(),
                met.len() == start.len() + graph.len(),
                sel@ == met.take(start.len() as int),
                walk_ends(graph, start),
                is_selected(met, v as int),
                linked(graph, start, v as int),
                forall|v: int| is_selected(start, v) ==> #[trigger] is_selected(met, v),
                forall|v: int| #[trigger] is_selected(met, v) ==> linked(graph, start, v),
                forall|k: int|
                    0 <= k < stack@.len() ==> is_selected(met, #[trigger] stack@[k] as int),
                forall|u: int, k: int|
                    0 <= u < graph.len() && u != v && is_selected(met, u) && !names(stack@, u) && 0
                        <= k < graph[u].len() ==> is_selected(met, #[trigger] graph[u][k] as int),
                forall|k: int| 0 <= k < i ==> is_selected(met, #[trigger] list[k] as int),
                ({
                    let count = 2 * unselected_count(sel@) + count_below(stack@, start.len());
                    ||| count < count_before
                    ||| v >= start.len() && count == count_before && stack@.len() < whole.len()
                }),
            decreases list.len() - i,
        {
            let n: u32 = adj[v][i];
            let ghost mask = sel@;
            let ghost before = met;
            let ghost pile = stack@;
            assert(graph[v as int][i as int] == n);
            proof {
                linked_step(graph, start, v as int, i as int);
                assert(linked(graph, start, n as int));
            }
            if !sel.contains(n as usize) {
                sel.set(n as usize, true);
                stack.push(n);
                proof {
                    met = met.update(n as int, true);
                    if n < start.len() {
                        assert(!mask[n as int]);
                        selecting_lowers_count(mask, n as int);
                    }
                    assert(sel@ =~= met.take(start.len() as int));
                    assert(stack@.drop_last() =~= pile);
                    assert(stack@[pile.len() as int] == n);
                    assert(names(stack@, n as int));
                    assert forall|u: int| names(pile, u) implies names(stack@, u) by {
                        let k = choose|k: int| 0 <= k < pile.len() && #[trigger] pile[k] == u;
                        assert(stack@[k] == u);
                    }
                    assert forall|u: int| is_selected(before, u) implies #[trigger] is_selected(
                        met,
                        u,
                    ) by {}
                    assert forall|u: int| #[trigger] is_selected(met, u) implies u == n
                        || is_selected(before, u) by {}
                    assert forall|k: int| 0 <= k < stack@.len() implies is_selected(
                        met,
                        #[trigger] stack@[k] as int,
                    ) by {
                        if k < pile.len() {
                            assert(is_selected(before, pile[k] as int));
                        }
                    }
                    assert forall|u: int, k: int|
                        0 <= u < graph.len() && u != v && is_selected(met, u) && !names(
                            stack@,
                            u,
                        ) && 0 <= k < graph[u].len() implies is_selected(
                        met,
                        #[trigger] graph[u][k] as int,
                    ) by {
                        assert(is_selected(before, u) && !names(pile, u));
                        assert(is_selected(before, graph[u][k] as int));
                    }
                    assert forall|k: int| 0 <= k < i implies is_selected(
                        met,
                        #[trigger] list[k] as int,
                    ) by {
                        assert(is_selected(before, list[k] as int));
                    }
                }
            }
            i += 1;
        }
        proof {
            assert forall|u: int, k: int|
                0 <= u < graph.len() && is_selected(met, u) && !names(stack@, u) && 0 <= k
                    < graph[u].len() implies is_selected(met, #[trigger] graph[u][k] as int) by {
                if u == v {
                    assert(is_selected(met, list[k] as int));
                }
            }
        }
    }
    proof {
        assert forall|u: int, k: int|
            0 <= u < graph.len() && is_selected(met, u) && 0 <= k < graph[u].len() implies is_selected(
            met,
            #[trigger] graph[u][k] as int,
        ) by {
            assert(!names(stack@, u));
        }
        assert forall|v: int| 0 <= v < start.len() implies sel@[v] == linked(graph, start, v) by {
            if linked(graph, start, v) {
                let n = choose|n: nat| reached_within(graph, start, v, n);
                closed_holds_reached(graph, start, met, v, n);
            }
            assert(sel@[v] == met[v]);
            if sel@[v] {
                assert(is_selected(met, v));
            }
        }
        assert(sel@ =~= linked_mask(graph, start));
    }
    sel.indices()
}

/// Selecting linked vertices keeps the selection, yields a mask that no edge
/// leads out of, and changes nothing when repeated.
pub proof fn linked_is_a_closure(graph: Seq<Seq<u32>>, mask: Seq<bool>)
    requires
        forall|v: int| #[trigger] linked(graph, mask, v) ==> v < mask.len(),
    ensures
        forall|v: int| is_selected(mask, v) ==> #[trigger] is_selected(linked_mask(graph, mask), v),
        closed_under_edges(graph, linked_mask(graph, mask)),
        linked_mask(graph, linked_mask(graph, mask)) == linked_mask(graph, mask),
{
    let all = linked_mask(graph, mask);
    assert forall|v: int| is_selected(mask, v) implies #[trigger] is_selected(all, v) by {
        assert(reached_within(graph, mask, v, 0));
    }
    assert forall|u: int, k: int|
        0 <= u < graph.len() && is_selected(all, u) && 0 <= k < graph[u].len() implies is_selected(
        all,
        #[trigger] graph[u][k] as int,
    ) by {
        linked_step(graph, mask, u, k);
    }
    assert forall|v: int| 0 <= v < mask.len() implies linked(graph, all, v) == all[v] by {
        if linked(graph, all, v) {
            let n = choose|n: nat| reached_within(graph, all, v, n);
            closed_holds_reached(graph, all, all, v, n);
        }
        if all[v] {
            assert(reached_within(graph, all, v, 0));
        }
    }
    assert(linked_mask(graph, all) =~= all);
}

proof fn reached_is_numbered(graph: Seq<Seq<u32>>, mask: Seq<bool>, v: int, n: nat)
    requires
        numbered(mask),
        reached_within(graph, mask, v, n),
    ensures
        v <= u32::MAX,
    decreases n,
{
    if n == 0 {
        assert(is_selected(mask, v));
    } else if reached_within(graph, mask, v, (n - 1) as nat) {
        reached_is_numbered(graph, mask, v, (n - 1) as nat);
    }
}

/// A selection that no triangle edge leads out of.
pub open spec fn closed_under_triangles(indices: Seq<u32>, mask: Seq<bool>) -> bool {
    forall|a: u32, b: u32|
        is_selected(mask, a as int) && #[trigger] mesh::share_edge(indices, indices.len() / 3, a, b)
            ==> is_selected(mask, b as int)
}

/// Whether everything that one mask selects is selected by another.
pub open spec fn selected_within(mask: Seq<bool>, other: Seq<bool>) -> bool {
    forall|v: int| #[trigger] is_selected(mask, v) ==> is_selected(other, v)
}

proof fn triangles_close_edges(mesh: SkinnedMesh, mask: Seq<bool>)
    requires
        mesh.sound(),
        mask.len() == mesh.vertices@.len(),
    ensures
        closed_under_triangles(mesh.indices@, mask) <==> closed_under_edges(mesh.neighbours(), mask),
{
    let n = mesh.vertices@.len();
    let indices = mesh.indices@;
    let graph = mesh.neighbours();
    mesh::adjacency_is_edge_relation(n, indices, indices.len() / 3);
    mesh::sound_neighbours_stay(mesh);
    if closed_under_triangles(indices, mask) {
        assert forall|u: int, k: int|
            0 <= u < graph.len() && is_selected(mask, u) && 0 <= k < graph[u].len() implies is_selected(
            mask,
            #[trigger] graph[u][k] as int,
        ) by {
            let w = graph[u][k];
            assert(graph[u].contains(w));
            if u > u32::MAX {
                mesh::vertices_beyond_numbers_are_alone(n, indices, indices.len() / 3, u);
            }
            assert(mesh::adjacency_after(n, indices, indices.len() / 3)[(u as u32) as int].contains(w));
        }
    }
    if closed_under_edges(graph, mask) {
        assert forall|a: u32, b: u32|
            is_selected(mask, a as int) && #[trigger] mesh::share_edge(
                indices,
                indices.len() / 3,
                a,
                b,
            ) implies is_selected(mask, b as int) by {
            assert(mesh::adjacency_after(n, indices, indices.len() / 3)[a as int].contains(b));
            let k = graph[a as int].index_of(b);
            assert(is_selected(mask, graph[a as int][k] as int));
        }
    }
}

/// On a sound mesh, selecting linked vertices gives the least selection that
/// holds the old one and that no triangle edge leads out of. Its vertices have
/// numbers as the old ones do, and selecting linked vertices once more changes
/// nothing.
pub proof fn linked_is_the_least_closed_selection(
    mesh: SkinnedMesh,
    mask: Seq<bool>,
    other: Seq<bool>,
)
    requires
        mesh.sound(),
        mask.len() == mesh.vertices@.len(),
        other.len() == mask.len(),
    ensures
        ({
            let all = linked_mask(mesh.neighbours(), mask);
            &&& selected_within(mask, all)
            &&& closed_under_triangles(mesh.indices@, all)
            &&& selected_within(mask, other) && closed_under_triangles(mesh.indices@, other)
                ==> selected_within(all, other)
            &&& linked_mask(mesh.neighbours(), all) == all
            &&& numbered(mask) ==> numbered(all)
        }),
{
    let graph = mesh.neighbours();
    let all = linked_mask(graph, mask);
    mesh::sound_neighbours_stay(mesh);
    covered_walks_end(graph, mask);
    linked_is_a_closure(graph, mask);
    triangles_close_edges(mesh, all);
    triangles_close_edges(mesh, other);
    if selected_within(mask, other) && closed_under_triangles(mesh.indices@, other) {
        assert forall|v: int| #[trigger] is_selected(all, v) implies is_selected(other, v) by {
            let n = choose|n: nat| reached_within(graph, mask, v, n);
            assert forall|u: int| is_selected(mask, u) implies #[trigger] is_selected(other, u) by {}
            closed_holds_reached(graph, mask, other, v, n);
        }
    }
    if numbered(mask) {
        assert forall|v: int| #[trigger] is_selected(all, v) implies v <= u32::MAX by {
            let n = choose|n: nat| reached_within(graph, mask, v, n);
            reached_is_numbered(graph, mask, v, n);
        }
    }
}

// ── screen tools ──────────────────────────────────────────────────────────────

/// A point in pixels, origin at the top left.
#[derive(Clone, Copy, Debug, PartialEq, Eq, Structural)]
pub struct ScreenPoint {
    pub x: Scalar,
    pub y: Scalar,
}

/// A mesh vertex as the camera sees it.
#[derive(Clone, Copy, Debug, PartialEq, Eq)]
pub struct ScreenVertex {
    /// Where the vertex projects to; `None` behind the camera.
    pub point: Option<ScreenPoint>,
    /// How far the vertex normal leans toward the camera: the product of the
    /// normal and the way to the camera.
    pub leaning: Scalar,
}

/// Filter applied by the screen tools.
#[derive(Clone, Copy, Debug, PartialEq, Eq, Structural)]
pub struct ScreenFilter {
    /// Only select vertices whose normal faces the camera.
    pub front_facing_only: bool,
}

impl Default for ScreenFilter {
    /// No filter.
    fn default() -> (f: ScreenFilter)
        ensures
            !f.front_facing_only,
    {
        ScreenFilter { front_facing_only: false }
    }
}

/// How far in front of the camera a point has to lie to be seen: the bit
/// pattern of a millionth.
pub const CAMERA_PLANE_BITS: u32 = 0x3586_37BD;

/// Where a point is seen whose projection has the weight `w`: at the given
/// pixel, or nowhere if it lies behind the camera.
pub fn project(w: Scalar, pixel: ScreenPoint) -> (r: Option<ScreenPoint>)
    ensures
        r == (if w.spec_le(Scalar { bits: CAMERA_PLANE_BITS }) {
            None
        } else {
            Some(pixel)
        }),
        (Scalar { bits: CAMERA_PLANE_BITS }).spec_lt(w) ==> r == Some(pixel),
        w.spec_le(Scalar::zero()) ==> r is None,
{
    if w.at_most(Scalar::from_bits(CAMERA_PLANE_BITS)) {
        None
    } else {
        Some(pixel)
    }
}

/// Whether a normal that leans this far faces the camera.
pub open spec fn faces_camera(leaning: Scalar) -> bool {
    Scalar::zero().spec_lt(leaning)
}

/// Whether a normal that leans this far is turned away from the camera. What is
/// not a number is neither turned away nor facing.
pub open spec fn turned_away(leaning: Scalar) -> bool {
    leaning.spec_le(Scalar::zero())
}

/// Whether a vertex faces the camera, given how far its normal leans toward it.
pub fn is_front_facing(leaning: Scalar) -> (r: bool)
    ensures
        r == faces_camera(leaning),
{
    leaning.is_positive()
}

/// Whether a vertex is turned away from the camera, given how far its normal
/// leans toward it.
pub fn is_turned_away(leaning: Scalar) -> (r: bool)
    ensures
        r == turned_away(leaning),
{
    leaning.at_most(Scalar::zero())
}

/// Whether a vertex is projected and passes the filter.
pub open spec fn on_screen(vertex: ScreenVertex, filter: ScreenFilter) -> bool {
    (!filter.front_facing_only || faces_camera(vertex.leaning)) && vertex.point is Some
}

/// Whether a vertex can be painted: it is projected, and the filter does not
/// find it turned away.
pub open spec fn paintable(vertex: ScreenVertex, filter: ScreenFilter) -> bool {
    !(filter.front_facing_only && turned_away(vertex.leaning)) && vertex.point is Some
}

/// The projected vertices that pass the filter and lie inside a region, in
/// ascending order.
pub open spec fn screen_hits(
    screen: Seq<ScreenVertex>,
    filter: ScreenFilter,
    inside: spec_fn(int) -> bool,
) -> Seq<u32> {
    listing::as_u32(
        listing::indices_where(screen.len(), |i: int| on_screen(screen[i], filter) && inside(i)),
    )
}

/// Whether a point lies in the rectangle spanned by two opposite corners, its
/// edges included.
pub open spec fn in_rect(p: ScreenPoint, a: ScreenPoint, b: ScreenPoint) -> bool {
    &&& a.x.spec_min(b.x).spec_le(p.x) && p.x.spec_le(a.x.spec_max(b.x))
    &&& a.y.spec_min(b.y).spec_le(p.y) && p.y.spec_le(a.y.spec_max(b.y))
}

/// Select the vertices that project into the rectangle spanned by two corners.
pub fn marquee(
    screen: &Vec<ScreenVertex>,
    rect_min: ScreenPoint,
    rect_max: ScreenPoint,
    filter: ScreenFilter,
) -> (hits: Vec<u32>)
    ensures
        hits@ == screen_hits(
            screen@,
            filter,
            |i: int| in_rect(screen@[i].point->0, rect_min, rect_max),
        ),
{
    let ghost p = |i: int|
        on_screen(screen@[i], filter) && (|i: int|
            in_rect(screen@[i].point->0, rect_min, rect_max))(i);
    let lo_x = rect_min.x.smaller(rect_max.x);
    let hi_x = rect_min.x.larger(rect_max.x);
    let lo_y = rect_min.y.smaller(rect_max.y);
    let hi_y = rect_min.y.larger(rect_max.y);
    let mut hits: Vec<u32> = Vec::new();
    let mut i: usize = 0;
    while i < screen.len()
        invariant
            i <= screen.len(),
            lo_x == rect_min.x.spec_min(rect_max.x),
            hi_x == rect_min.x.spec_max(rect_max.x),
            lo_y == rect_min.y.spec_min(rect_max.y),
            hi_y == rect_min.y.spec_max(rect_max.y),
            forall|i: int|
                #[trigger] p(i) == (on_screen(screen@[i], filter) && in_rect(
                    screen@[i].point->0,
                    rect_min,
                    rect_max,
                )),
            hits@ == listing::as_u32(listing::indices_where(i as nat, p)),
        decreases screen.len() - i,
    {
        let ghost hit = p(i as int);
        let vertex = screen[i];
        if !filter.front_facing_only || is_front_facing(vertex.leaning) {
            if let Some(at) = vertex.point {
                if lo_x.at_most(at.x) && at.x.at_most(hi_x) && lo_y.at_most(at.y) && at.y.at_most(
                    hi_y,
                ) {
                    hits.push(i as u32);
                    assert(hits@ =~= listing::as_u32(listing::indices_where((i + 1) as nat, p)));
                }
            }
        }
        i += 1;
    }
    proof {
        listing::listed_same(
            screen@.len(),
            p,
            |i: int|
                on_screen(screen@[i], filter) && (|i: int|
                    in_rect(screen@[i].point->0, rect_min, rect_max))(i),
        );
    }
    hits
}

/// Whether the edge that ends at corner `i` spans the height of a point.
pub open spec fn spans_height(poly: Seq<ScreenPoint>, i: int, y: Scalar) -> bool {
    let j = if i == 0 {
        poly.len() - 1
    } else {
        i - 1
    };
    y.spec_lt(poly[i].y) != y.spec_lt(poly[j].y)
}

/// Among the first `n` edges, how many a ray from the point to the right
/// crosses. `x_at[i]` is where edge `i` meets the height of the point.
pub open spec fn ray_crossings(
    p: ScreenPoint,
    poly: Seq<ScreenPoint>,
    x_at: Seq<Scalar>,
    n: nat,
) -> nat
    decreases n,
{
    if n == 0 {
        0
    } else {
        ray_crossings(p, poly, x_at, (n - 1) as nat) + (if spans_height(poly, n - 1, p.y)
            && p.x.spec_lt(x_at[n - 1]) {
            1nat
        } else {
            0nat
        })
    }
}

/// Even-odd rule: a point is inside if the ray crosses an odd number of edges.
pub open spec fn inside_polygon(p: ScreenPoint, poly: Seq<ScreenPoint>, x_at: Seq<Scalar>) -> bool {
    ray_crossings(p, poly, x_at, poly.len()) % 2 == 1
}

/// Even-odd point-in-polygon test. `x_at[i]` is where the edge that ends at
/// corner `i` meets the height of the point; it is read only for edges that
/// span that height.
pub fn point_in_polygon(p: ScreenPoint, poly: &Vec<ScreenPoint>, x_at: &Vec<Scalar>) -> (r: bool)
    requires
        poly@.len() > 0,
        x_at@.len() == poly@.len(),
    ensures
        r == inside_polygon(p, poly@, x_at@),
{
    let mut inside = false;
    let n: usize = poly.len();
    let mut j: usize = n - 1;
    let mut i: usize = 0;
    while i < n
        invariant
            i <= n,
            n == poly@.len(),
            n == x_at@.len(),
            j < n,
            i == 0 ==> j == n - 1,
            i > 0 ==> j == i - 1,
            inside == (ray_crossings(p, poly@, x_at@, i as nat) % 2 == 1),
        decreases n - i,
    {
        let a = poly[i];
        let b = poly[j];
        let crosses = p.y.less(a.y) != p.y.less(b.y);
        if crosses {
            if p.x.less(x_at[i]) {
                inside = !inside;
            }
        }
        j = i;
        i += 1;
    }
    inside
}

/// Select the vertices that project into a closed polygon. `x_at[v]` holds, for
/// vertex `v`, where each polygon edge meets its height.
pub fn lasso(
    screen: &Vec<ScreenVertex>,
    polygon: &Vec<ScreenPoint>,
    x_at: &Vec<Vec<Scalar>>,
    filter: ScreenFilter,
) -> (hits: Vec<u32>)
    requires
        x_at@.len() == screen@.len(),
        forall|v: int|
            0 <= v < screen@.len() && screen@[v].point is Some ==> (#[trigger] x_at@[v])@.len()
                == polygon@.len(),
    ensures
        hits@ == (if polygon@.len() < 3 {
            Seq::empty()
        } else {
            screen_hits(
                screen@,
                filter,
                |v: int| inside_polygon(screen@[v].point->0, polygon@, x_at@[v]@),
            )
        }),
{
    let mut hits: Vec<u32> = Vec::new();
    if polygon.len() < 3 {
        return hits;
    }
    let ghost p = |i: int|
        on_screen(screen@[i], filter) && (|v: int|
            inside_polygon(screen@[v].point->0, polygon@, x_at@[v]@))(i);
    let mut i: usize = 0;
    while i < screen.len()
        invariant
            i <= screen.len(),
            polygon@.len() >= 3,
            x_at@.len() == screen@.len(),
            forall|v: int|
                0 <= v < screen@.len() && screen@[v].point is Some ==> (#[trigger] x_at@[v])@.len()
                    == polygon@.len(),
            forall|i: int|
                #[trigger] p(i) == (on_screen(screen@[i], filter) && inside_polygon(
                    screen@[i].point->0,
                    polygon@,
                    x_at@[i]@,
                )),
            hits@ == listing::as_u32(listing::indices_where(i as nat, p)),
        decreases screen.len() - i,
    {
        let ghost hit = p(i as int);
        let vertex = screen[i];
        if !filter.front_facing_only || is_front_facing(vertex.leaning) {
            if let Some(at) = vertex.point {
                if point_in_polygon(at, polygon, &x_at[i]) {
                    hits.push(i as u32);
                    assert(hits@ =~= listing::as_u32(listing::indices_where((i + 1) as nat, p)));
                }
            }
        }
        i += 1;
    }
    proof {
        listing::listed_same(
            screen@.len(),
            p,
            |i: int|
                on_screen(screen@[i], filter) && (|v: int|
                    inside_polygon(screen@[v].point->0, polygon@, x_at@[v]@))(i),
        );
    }
    hits
}

/// Select the vertices within a brush: those whose squared distance to the
/// brush centre, in pixels, is at most the squared radius.
pub fn brush(
    screen: &Vec<ScreenVertex>,
    distance_squared: &Vec<Scalar>,
    radius_squared: Scalar,
    filter: ScreenFilter,
) -> (hits: Vec<u32>)
    requires
        distance_squared@.len() == screen@.len(),
    ensures
        hits@ == screen_hits(
            screen@,
            filter,
            |v: int| distance_squared@[v].spec_le(radius_squared),
        ),
{
    let ghost p = |i: int|
        on_screen(screen@[i], filter) && (|v: int|
            distance_squared@[v].spec_le(radius_squared))(i);
    let mut hits: Vec<u32> = Vec::new();
    let mut i: usize = 0;
    while i < screen.len()
        invariant
            i <= screen.len(),
            distance_squared@.len() == screen@.len(),
            forall|i: int|
                #[trigger] p(i) == (on_screen(screen@[i], filter) && distance_squared@[i].spec_le(
                    radius_squared,
                )),
            hits@ == listing::as_u32(listing::indices_where(i as nat, p)),
        decreases screen.len() - i,
    {
        let ghost hit = p(i as int);
        let vertex = screen[i];
        if !filter.front_facing_only || is_front_facing(vertex.leaning) {
            if vertex.point.is_some() {
                if distance_squared[i].at_most(radius_squared) {
                    hits.push(i as u32);
                    assert(hits@ =~= listing::as_u32(listing::indices_where((i + 1) as nat, p)));
                }
            }
        }
        i += 1;
    }
    proof {
        listing::listed_same(
            screen@.len(),
            p,
            |i: int|
                on_screen(screen@[i], filter) && (|v: int|
                    distance_squared@[v].spec_le(radius_squared))(i),
        );
    }
    hits
}

/// The paintable vertices within a radius of the brush centre, in ascending
/// order.
pub open spec fn painted_hits(
    screen: Seq<ScreenVertex>,
    filter: ScreenFilter,
    distances: Seq<Scalar>,
    radius: Scalar,
) -> Seq<u32> {
    listing::as_u32(
        listing::indices_where(
            screen.len(),
            |i: int| paintable(screen[i], filter) && distances[i].spec_le(radius),
        ),
    )
}

/// Find the vertices that a brush paints: those whose distance to the brush
/// centre, in pixels, is at most the radius.
pub fn paint_brush(
    screen: &Vec<ScreenVertex>,
    distances: &Vec<Scalar>,
    radius: Scalar,
    filter: ScreenFilter,
) -> (hits: Vec<u32>)
    requires
        distances@.len() == screen@.len(),
    ensures
        hits@ == painted_hits(screen@, filter, distances@, radius),
{
    let ghost p = |i: int| paintable(screen@[i], filter) && distances@[i].spec_le(radius);
    let mut hits: Vec<u32> = Vec::new();
    let mut i: usize = 0;
    while i < screen.len()
        invariant
            i <= screen.len(),
            distances@.len() == screen@.len(),
            p == (|i: int| paintable(screen@[i], filter) && distances@[i].spec_le(radius)),
            hits@ == listing::as_u32(listing::indices_where(i as nat, p)),
        decreases screen.len() - i,
    {
        let ghost hit = p(i as int);
        let vertex = screen[i];
        let hidden = filter.front_facing_only && is_turned_away(vertex.leaning);
        if !hidden && vertex.point.is_some() && distances[i].at_most(radius) {
            hits.push(i as u32);
            assert(hits@ =~= listing::as_u32(listing::indices_where((i + 1) as nat, p)));
        }
        i += 1;
    }
    hits
}

/// Swapping the corners of a marquee changes nothing.
pub proof fn marquee_ignores_corner_order(p: ScreenPoint, a: ScreenPoint, b: ScreenPoint)
    ensures
        in_rect(p, a, b) == in_rect(p, b, a),
{
}

// ── semantic tools ────────────────────────────────────────────────────────────

/// Select every vertex whose dominant bone is `bone`.
pub fn by_dominant_bone(mesh: &SkinnedMesh, bone: u16) -> (r: Vec<u32>)
    requires
        mesh.vertices@.len() <= mesh.influences@.len(),
    ensures
        r@ == listing::as_u32(
            listing::indices_where(
                mesh.vertices@.len(),
                |v: int| mesh::dominant_of(mesh.influences@[v]@) == Some(bone),
            ),
        ),
{
    let ghost p = |v: int| mesh::dominant_of(mesh.influences@[v]@) == Some(bone);
    let mut r: Vec<u32> = Vec::new();
    let mut v: usize = 0;
    while v < mesh.vertex_count()
        invariant
            v <= mesh.vertices@.len(),
            mesh.vertices@.len() <= mesh.influences@.len(),
            p == (|v: int| mesh::dominant_of(mesh.influences@[v]@) == Some(bone)),
            r@ == listing::as_u32(listing::indices_where(v as nat, p)),
        decreases mesh.vertices@.len() - v,
    {
        let ghost hit = p(v as int);
        let dominant = mesh.dominant_bone(v);
        let same = match dominant {
            Some(b) => b == bone,
            None => false,
        };
        if same {
            r.push(v as u32);
            assert(r@ =~= listing::as_u32(listing::indices_where((v + 1) as nat, p)));
        }
        v += 1;
    }
    r
}

/// Whether some slot gives `bone` a weight above `min_weight`.
pub open spec fn influenced(set: Seq<mesh::Influence>, bone: u16, min_weight: Scalar) -> bool {
    exists|k: int|
        0 <= k < set.len() && (#[trigger] set[k]).bone == bone && min_weight.spec_lt(set[k].weight)
}

/// Select every vertex with some influence from `bone` above `min_weight`.
pub fn by_any_influence(mesh: &SkinnedMesh, bone: u16, min_weight: Scalar) -> (r: Vec<u32>)
    requires
        mesh.vertices@.len() <= mesh.influences@.len(),
    ensures
        r@ == listing::as_u32(
            listing::indices_where(
                mesh.vertices@.len(),
                |v: int| influenced(mesh.influences@[v]@, bone, min_weight),
            ),
        ),
{
    let ghost p = |v: int| influenced(mesh.influences@[v]@, bone, min_weight);
    let mut r: Vec<u32> = Vec::new();
    let mut v: usize = 0;
    while v < mesh.vertex_count()
        invariant
            v <= mesh.vertices@.len(),
            mesh.vertices@.len() <= mesh.influences@.len(),
            p == (|v: int| influenced(mesh.influences@[v]@, bone, min_weight)),
            r@ == listing::as_u32(listing::indices_where(v as nat, p)),
        decreases mesh.vertices@.len() - v,
    {
        let ghost hit = p(v as int);
        let set = mesh.influences[v];
        let mut some = false;
        let mut k: usize = 0;
        while k < mesh::MAX_INFLUENCES
            invariant
                k <= mesh::MAX_INFLUENCES,
                set@.len() == mesh::MAX_INFLUENCES,
                some == (exists|j: int|
                    0 <= j < k && (#[trigger] set@[j]).bone == bone && min_weight.spec_lt(
                        set@[j].weight,
                    )),
            decreases mesh::MAX_INFLUENCES - k,
        {
            if set[k].bone == bone && min_weight.less(set[k].weight) {
                some = true;
                assert(set@[k as int].bone == bone);
            }
            k += 1;
        }
        assert(some == influenced(set@, bone, min_weight));
        if some {
            r.push(v as u32);
            assert(r@ =~= listing::as_u32(listing::indices_where((v + 1) as nat, p)));
        }
        v += 1;
    }
    r
}

// ── what holds of them ────────────────────────────────────────────────────────

/// Replacing selects exactly the vertices that were hit, adding keeps the others
/// as they are, and subtracting deselects exactly those that were hit.
pub proof fn modes_combine_hits(mask: Seq<bool>, hits: Seq<u32>, v: u32)
    requires
        v < mask.len(),
    ensures
        applied(mask, hits, SelectMode::Replace)[v as int] <==> hits.contains(v),
        hits.contains(v) ==> applied(mask, hits, SelectMode::Add)[v as int] && !applied(
            mask,
            hits,
            SelectMode::Subtract,
        )[v as int],
        !hits.contains(v) ==> applied(mask, hits, SelectMode::Add)[v as int] == mask[v as int]
            && applied(mask, hits, SelectMode::Subtract)[v as int] == mask[v as int],
{
    if hits.contains(v) {
        assert(hits[hits.index_of(v)] == v as int);
    }
}

/// A normal that leans by a number either faces the camera or is turned away,
/// and one that leans the other way round does the opposite.
pub proof fn normals_face_or_turn_away(leaning: Scalar, opposite: Scalar)
    requires
        !leaning.nan(),
        opposite.magnitude() == leaning.magnitude(),
        opposite.negative() == !leaning.negative(),
    ensures
        faces_camera(leaning) != turned_away(leaning),
        faces_camera(leaning) ==> turned_away(opposite),
        leaning.magnitude() > 0 ==> faces_camera(leaning) != faces_camera(opposite),
        leaning.magnitude() > 0 && !leaning.negative() ==> faces_camera(leaning),
{
}

/// Without the filter every projected vertex counts; with it those turned away
/// do not. Whatever can be selected can be painted, and a vertex that is not
/// projected neither.
pub proof fn filters_leave_out_what_is_turned_away(vertex: ScreenVertex)
    ensures
        ({
            let all = ScreenFilter { front_facing_only: false };
            let front = ScreenFilter { front_facing_only: true };
            &&& on_screen(vertex, all) == vertex.point is Some
            &&& paintable(vertex, all) == vertex.point is Some
            &&& on_screen(vertex, front) ==> on_screen(vertex, all) && paintable(vertex, front)
            &&& on_screen(vertex, front) ==> !turned_away(vertex.leaning)
            &&& paintable(vertex, front) ==> !turned_away(vertex.leaning) && vertex.point is Some
            &&& vertex.point is Some && Scalar::zero().spec_lt(vertex.leaning) ==> on_screen(
                vertex,
                front,
            )
        }),
{
}

/// The hits name a vertex exactly if it is on screen and inside the region, and
/// they ascend.
pub proof fn hits_are_the_vertices_inside(
    screen: Seq<ScreenVertex>,
    filter: ScreenFilter,
    inside: spec_fn(int) -> bool,
    v: u32,
)
    requires
        screen.len() <= u32::MAX,
    ensures
        screen_hits(screen, filter, inside).contains(v) <==> v < screen.len() && inside(v as int)
            && screen[v as int].point is Some && (filter.front_facing_only ==> faces_camera(
            screen[v as int].leaning,
        )),
        forall|a: int, b: int|
            0 <= a < b < screen_hits(screen, filter, inside).len() ==> screen_hits(
                screen,
                filter,
                inside,
            )[a] < screen_hits(screen, filter, inside)[b],
{
    let p = |i: int| on_screen(screen[i], filter) && inside(i);
    let list = listing::indices_where(screen.len(), p);
    let hits = screen_hits(screen, filter, inside);
    listing::listed_iff_satisfied(screen.len(), p, v as int);
    listing::listed_ascending(screen.len(), p);
    if hits.contains(v) {
        let k = hits.index_of(v);
        assert(hits[k] == list[k] as u32);
        assert(0 <= list[k] < screen.len());
    }
    if list.contains(v as int) {
        let k = list.index_of(v as int);
        assert(hits[k] == v);
    }
    assert forall|a: int, b: int| 0 <= a < b < hits.len() implies hits[a] < hits[b] by {
        assert(0 <= list[a] < screen.len() && 0 <= list[b] < screen.len());
    }
}

/// A point is in a rectangle exactly if each coordinate lies between those of
/// the corners, whichever of the two is the smaller.
pub proof fn rectangles_hold_what_lies_between(p: ScreenPoint, a: ScreenPoint, b: ScreenPoint)
    requires
        !a.x.nan() && !a.y.nan() && !b.x.nan() && !b.y.nan(),
    ensures
        in_rect(p, a, b) <==> (a.x.spec_le(p.x) && p.x.spec_le(b.x) || b.x.spec_le(p.x)
            && p.x.spec_le(a.x)) && (a.y.spec_le(p.y) && p.y.spec_le(b.y) || b.y.spec_le(p.y)
            && p.y.spec_le(a.y)),
        in_rect(a, a, b) && in_rect(b, a, b),
{
}

/// A point is in an upright rectangle drawn as a polygon exactly if it lies
/// between its sides, those with the smaller coordinates included.
pub proof fn upright_polygons_hold_what_lies_between(
    p: ScreenPoint,
    low: ScreenPoint,
    high: ScreenPoint,
    level: Scalar,
)
    requires
        !p.x.nan() && !p.y.nan(),
        low.x.spec_lt(high.x) && low.y.spec_lt(high.y),
    ensures
        inside_polygon(
            p,
            seq![
                low,
                ScreenPoint { x: high.x, y: low.y },
                high,
                ScreenPoint { x: low.x, y: high.y },
            ],
            seq![low.x, level, high.x, level],
        ) <==> low.x.spec_le(p.x) && p.x.spec_lt(high.x) && low.y.spec_le(p.y) && p.y.spec_lt(
            high.y,
        ),
{
    let poly = seq![
        low,
        ScreenPoint { x: high.x, y: low.y },
        high,
        ScreenPoint { x: low.x, y: high.y },
    ];
    let x_at = seq![low.x, level, high.x, level];
    reveal_with_fuel(ray_crossings, 5);
    assert(!spans_height(poly, 1, p.y));
    assert(!spans_height(poly, 3, p.y));
    assert(spans_height(poly, 0, p.y) == (low.y.spec_le(p.y) && p.y.spec_lt(high.y)));
    assert(spans_height(poly, 2, p.y) == (low.y.spec_le(p.y) && p.y.spec_lt(high.y)));
    assert(x_at[0] == low.x && x_at[2] == high.x);
}

/// A point to the left of every edge that spans its height, and one to the left
/// of none, lies outside a polygon.
pub proof fn points_beside_a_polygon_are_outside(
    p: ScreenPoint,
    poly: Seq<ScreenPoint>,
    x_at: Seq<Scalar>,
)
    requires
        poly.len() > 0,
        (forall|i: int|
            0 <= i < poly.len() && #[trigger] spans_height(poly, i, p.y) ==> p.x.spec_lt(x_at[i]))
            || (forall|i: int|
            0 <= i < poly.len() && #[trigger] spans_height(poly, i, p.y) ==> !p.x.spec_lt(x_at[i])),
    ensures
        !inside_polygon(p, poly, x_at),
{
    if forall|i: int|
        0 <= i < poly.len() && #[trigger] spans_height(poly, i, p.y) ==> p.x.spec_lt(x_at[i]) {
        crossings_alternate(p, poly, x_at, poly.len());
    } else {
        nothing_is_crossed(p, poly, x_at, poly.len());
    }
}

proof fn nothing_is_crossed(
    p: ScreenPoint,
    poly: Seq<ScreenPoint>,
    x_at: Seq<Scalar>,
    n: nat,
)
    requires
        n <= poly.len(),
        forall|i: int|
            0 <= i < poly.len() && #[trigger] spans_height(poly, i, p.y) ==> !p.x.spec_lt(x_at[i]),
    ensures
        ray_crossings(p, poly, x_at, n) == 0,
    decreases n,
{
    if n > 0 {
        nothing_is_crossed(p, poly, x_at, (n - 1) as nat);
    }
}

proof fn crossings_alternate(
    p: ScreenPoint,
    poly: Seq<ScreenPoint>,
    x_at: Seq<Scalar>,
    n: nat,
)
    requires
        0 < n <= poly.len(),
        forall|i: int|
            0 <= i < poly.len() && #[trigger] spans_height(poly, i, p.y) ==> p.x.spec_lt(x_at[i]),
    ensures
        ray_crossings(p, poly, x_at, n) % 2 == 1 <==> p.y.spec_lt(poly[n - 1].y) != p.y.spec_lt(
            poly[poly.len() - 1].y,
        ),
    decreases n,
{
    reveal_with_fuel(ray_crossings, 2);
    if n > 1 {
        crossings_alternate(p, poly, x_at, (n - 1) as nat);
    }
    assert(spans_height(poly, n - 1, p.y) ==> p.x.spec_lt(x_at[n - 1]));
}

/// Moving a point past one edge, with the others as they were, changes whether
/// it is inside.
pub proof fn passing_an_edge_changes_sides(
    p: ScreenPoint,
    poly: Seq<ScreenPoint>,
    x_at: Seq<Scalar>,
    i: int,
    here: Scalar,
    there: Scalar,
)
    requires
        x_at.len() == poly.len(),
        0 <= i < poly.len(),
        p.y.spec_lt(poly[i].y) != p.y.spec_lt(
            poly[if i == 0 {
                poly.len() - 1
            } else {
                i - 1
            }].y,
        ),
        p.x.spec_lt(here),
        !p.x.spec_lt(there),
    ensures
        inside_polygon(p, poly, x_at.update(i, here)) != inside_polygon(
            p,
            poly,
            x_at.update(i, there),
        ),
{
    one_edge_counts_once(p, poly, x_at, i, here, there, poly.len());
}

proof fn one_edge_counts_once(
    p: ScreenPoint,
    poly: Seq<ScreenPoint>,
    x_at: Seq<Scalar>,
    i: int,
    here: Scalar,
    there: Scalar,
    n: nat,
)
    requires
        x_at.len() == poly.len(),
        n <= poly.len(),
        0 <= i < poly.len(),
        spans_height(poly, i, p.y),
        p.x.spec_lt(here),
        !p.x.spec_lt(there),
    ensures
        ray_crossings(p, poly, x_at.update(i, here), n) == ray_crossings(
            p,
            poly,
            x_at.update(i, there),
            n,
        ) + (if i < n {
            1nat
        } else {
            0nat
        }),
    decreases n,
{
    if n > 0 {
        one_edge_counts_once(p, poly, x_at, i, here, there, (n - 1) as nat);
    }
}

/// Where a bone influences a vertex above a weight, it does so above every
/// smaller one, and the dominant bone influences its vertex above zero.
pub proof fn influence_is_monotone(
    set: Seq<mesh::Influence>,
    bone: u16,
    less: Scalar,
    more: Scalar,
)
    requires
        less.spec_le(more),
    ensures
        influenced(set, bone, more) ==> influenced(set, bone, less),
        mesh::dominant_of(set) == Some(bone) ==> influenced(set, bone, Scalar::zero()),
        influenced(set, bone, less) ==> exists|k: int|
            0 <= k < set.len() && (#[trigger] set[k]).bone == bone && less.spec_lt(set[k].weight),
{
    mesh::dominant_bone_has_the_heaviest_slot(set);
    if influenced(set, bone, more) {
        let k = choose|k: int|
            0 <= k < set.len() && (#[trigger] set[k]).bone == bone && more.spec_lt(set[k].weight);
        assert(set[k].bone == bone && less.spec_lt(set[k].weight));
    }
}

/// The brush paints a vertex exactly if it is projected, lies within the radius,
/// and is not known to be turned away where only the front is painted.
pub proof fn paint_hits_are_the_vertices_within(
    screen: Seq<ScreenVertex>,
    filter: ScreenFilter,
    distances: Seq<Scalar>,
    radius: Scalar,
    v: u32,
)
    requires
        screen.len() <= u32::MAX,
    ensures
        painted_hits(screen, filter, distances, radius).contains(v) <==> v < screen.len()
            && distances[v as int].spec_le(radius) && screen[v as int].point is Some && !(
        filter.front_facing_only && screen[v as int].leaning.spec_le(Scalar::zero())),
{
    let p = |i: int| paintable(screen[i], filter) && distances[i].spec_le(radius);
    let list = listing::indices_where(screen.len(), p);
    let hits = painted_hits(screen, filter, distances, radius);
    listing::listed_iff_satisfied(screen.len(), p, v as int);
    listing::listed_ascending(screen.len(), p);
    if hits.contains(v) {
        let k = hits.index_of(v);
        assert(0 <= list[k] < screen.len());
    }
    if list.contains(v as int) {
        assert(hits[list.index_of(v as int)] == v);
    }
}

} // verus!
