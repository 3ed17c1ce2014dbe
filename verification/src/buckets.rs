//! Which frames feed which bucket of a motion prior, and how many samples each
//! bone gets there.
use vstd::prelude::*;
use crate::listing;

verus! {

/// The frames whose goal falls into one cell.
#[derive(Clone, Debug)]
pub struct CellFrames {
    pub cell: u32,
    pub frames: Vec<usize>,
}

/// Whether a frame falls into a cell.
pub open spec fn falls_in(cells: Seq<u32>, cell: u32) -> spec_fn(int) -> bool {
    |f: int| cells[f] == cell
}

/// The frames of a cell, in their order.
pub open spec fn frames_of(cells: Seq<u32>, cell: u32) -> Seq<int> {
    listing::indices_where(cells.len(), falls_in(cells, cell))
}

/// Some group belongs to a cell.
pub open spec fn has_group(groups: Seq<CellFrames>, cell: u32) -> bool {
    exists|i: int| 0 <= i < groups.len() && (#[trigger] groups[i]).cell == cell
}

/// The groups sort the frames by cell: one group for each cell that occurs, with
/// all its frames.
pub open spec fn sorts(groups: Seq<CellFrames>, cells: Seq<u32>) -> bool {
    &&& forall|i: int, j: int| 0 <= i < j < groups.len() ==> groups[i].cell != groups[j].cell
    &&& forall|i: int|
        0 <= i < groups.len() ==> (#[trigger] groups[i]).frames@ == listing::as_usize(
            frames_of(cells, groups[i].cell),
        )
    &&& forall|f: int| 0 <= f < cells.len() ==> has_group(groups, #[trigger] cells[f])
    &&& forall|i: int|
        0 <= i < groups.len() ==> cells.contains((#[trigger] groups[i]).cell)
}

/// Sort frames by the cell of their goal.
pub fn group_frames(cells: &Vec<u32>) -> (r: Vec<CellFrames>)
    ensures
        sorts(r@, cells@),
{
    let mut r: Vec<CellFrames> = Vec::new();
    let mut f: usize = 0;
    while f < cells.len()
        invariant
            f <= cells.len(),
            sorts(r@, cells@.take(f as int)),
        decreases cells.len() - f,
    {
        let cell: u32 = cells[f];
        let ghost before = r@;
        let mut at: usize = 0;
        while at < r.len() && r[at].cell != cell
            invariant
                at <= r@.len(),
                r@ == before,
                forall|i: int| 0 <= i < at ==> (#[trigger] r@[i]).cell != cell,
            decreases r@.len() - at,
        {
            at += 1;
        }
        if at == r.len() {
            r.push(CellFrames { cell, frames: Vec::new() });
            assert(r@.drop_last() =~= before);
        }
        let ghost opened = r@;
        r[at].frames.push(f);
        proof {
            frame_sorted(before, opened, r@, cells@, f as int, at as int);
        }
        f += 1;
    }
    assert(cells@.take(f as int) =~= cells@);
    r
}

proof fn frames_grow(cells: Seq<u32>, cell: u32, f: int)
    requires
        0 <= f < cells.len(),
    ensures
        frames_of(cells.take(f + 1), cell) == (if cells[f] == cell {
            frames_of(cells.take(f), cell).push(f)
        } else {
            frames_of(cells.take(f), cell)
        }),
{
    let (a, b) = (cells.take(f), cells.take(f + 1));
    let (p, q) = (falls_in(a, cell), falls_in(b, cell));
    listing::listed_same(f as nat, p, q);
    assert(q(f) == (cells[f] == cell));
}

proof fn frame_sorted(
    before: Seq<CellFrames>,
    opened: Seq<CellFrames>,
    after: Seq<CellFrames>,
    cells: Seq<u32>,
    f: int,
    at: int,
)
    requires
        0 <= f < cells.len(),
        cells.len() <= usize::MAX,
        sorts(before, cells.take(f)),
        0 <= at < opened.len(),
        at <= before.len(),
        forall|i: int| 0 <= i < at ==> (#[trigger] before[i]).cell != cells[f],
        at < before.len() ==> opened == before && before[at].cell == cells[f],
        at == before.len() ==> opened.len() == before.len() + 1 && opened.drop_last() == before
            && opened[at].cell == cells[f] && opened[at].frames@.len() == 0,
        after.len() == opened.len(),
        forall|i: int| 0 <= i < opened.len() && i != at ==> #[trigger] after[i] == opened[i],
        after[at].cell == opened[at].cell,
        after[at].frames@ == opened[at].frames@.push(f as usize),
    ensures
        sorts(after, cells.take(f + 1)),
{
    let (a, b) = (cells.take(f), cells.take(f + 1));
    let cell = cells[f];
    assert forall|i: int| 0 <= i < before.len() implies #[trigger] opened[i] == before[i] by {
        if at == before.len() {
            assert(opened.drop_last()[i] == opened[i]);
        }
    }
    assert forall|i: int, j: int| 0 <= i < j < after.len() implies after[i].cell
        != after[j].cell by {
        if j < before.len() {
            assert(before[i].cell != before[j].cell);
            assert(opened[i] == before[i] && opened[j] == before[j]);
        } else {
            assert(opened[i] == before[i]);
        }
    }
    assert forall|i: int| 0 <= i < after.len() implies (#[trigger] after[i]).frames@
        == listing::as_usize(frames_of(b, after[i].cell)) by {
        frames_grow(cells, after[i].cell, f);
        if i < before.len() {
            assert(before[i].frames@ == listing::as_usize(frames_of(a, before[i].cell)));
            assert(opened[i] == before[i]);
            if i != at && before[i].cell == cell {
                assert(at < before.len());
                if i < at {
                } else {
                    assert(before[at].cell != before[i].cell);
                }
            }
        } else {
            let list = frames_of(a, cell);
            let p = falls_in(a, cell);
            if list.len() > 0 {
                listing::listed_ascending(a.len(), p);
                assert(p(list[0]));
                assert(has_group(before, a[list[0]]));
                let g = choose|g: int| 0 <= g < before.len() && (#[trigger] before[g]).cell == cell;
                assert(before[g].cell != cells[f]);
            }
        }
        assert(after[i].frames@ =~= listing::as_usize(frames_of(b, after[i].cell)));
    }
    assert forall|k: int| 0 <= k < b.len() implies has_group(after, #[trigger] b[k]) by {
        if k == f {
            assert(after[at].cell == cell);
        } else {
            assert(b[k] == a[k]);
            assert(has_group(before, a[k]));
            let g = choose|g: int| 0 <= g < before.len() && (#[trigger] before[g]).cell == a[k];
            assert(opened[g] == before[g]);
            assert(after[g].cell == a[k]);
        }
    }
    assert forall|i: int| 0 <= i < after.len() implies b.contains((#[trigger] after[i]).cell) by {
        if i == at {
            assert(b[f] == cell);
        } else {
            assert(i < before.len());
            assert(opened[i] == before[i]);
            assert(a.contains(before[i].cell));
            let k = a.index_of(before[i].cell);
            assert(b[k] == a[k]);
        }
    }
}

/// How many of the first `n` listed frames hold a rotation of a bone. `lengths`
/// are the numbers of rotations per frame.
pub open spec fn samples(lengths: Seq<usize>, frames: Seq<usize>, bone: int, n: nat) -> nat
    decreases n,
{
    if n == 0 {
        0
    } else {
        samples(lengths, frames, bone, (n - 1) as nat) + (if lengths[frames[n - 1] as int] > bone {
            1nat
        } else {
            0nat
        })
    }
}

/// Count, for each of `bones` bones, the listed frames that hold a rotation of
/// it.
pub fn sample_counts(lengths: &Vec<usize>, frames: &Vec<usize>, bones: usize) -> (r: Vec<u32>)
    requires
        frames@.len() <= u32::MAX,
        forall|k: int| 0 <= k < frames@.len() ==> #[trigger] frames@[k] < lengths@.len(),
    ensures
        r@.len() == bones,
        forall|b: int|
            0 <= b < bones ==> #[trigger] r@[b] == samples(
                lengths@,
                frames@,
                b,
                frames@.len(),
            ),
{
    let mut r: Vec<u32> = Vec::new();
    let mut b: usize = 0;
    while b < bones
        invariant
            b <= bones,
            frames@.len() <= u32::MAX,
            forall|k: int| 0 <= k < frames@.len() ==> #[trigger] frames@[k] < lengths@.len(),
            r@.len() == b,
            forall|c: int|
                0 <= c < b ==> #[trigger] r@[c] == samples(
                    lengths@,
                    frames@,
                    c,
                    frames@.len(),
                ),
        decreases bones - b,
    {
        let mut count: u32 = 0;
        let mut k: usize = 0;
        while k < frames.len()
            invariant
                k <= frames@.len(),
                frames@.len() <= u32::MAX,
                forall|k: int| 0 <= k < frames@.len() ==> #[trigger] frames@[k] < lengths@.len(),
                count == samples(lengths@, frames@, b as int, k as nat),
                count <= k,
            decreases frames@.len() - k,
        {
            assert(frames@[k as int] < lengths@.len());
            if lengths[frames[k]] > b {
                count += 1;
            }
            k += 1;
        }
        r.push(count);
        b += 1;
    }
    r
}

/// Samples of a bone in the first `n` groups together.
pub open spec fn group_samples(
    lengths: Seq<usize>,
    groups: Seq<CellFrames>,
    bone: int,
    n: nat,
) -> nat
    decreases n,
{
    if n == 0 {
        0
    } else {
        group_samples(lengths, groups, bone, (n - 1) as nat) + samples(
            lengths,
            groups[n - 1].frames@,
            bone,
            groups[n - 1].frames@.len(),
        )
    }
}

/// Samples of a bone among the first `n` frames that satisfy `p`.
spec fn samples_where(lengths: Seq<usize>, p: spec_fn(int) -> bool, bone: int, n: nat) -> nat
    decreases n,
{
    if n == 0 {
        0
    } else {
        samples_where(lengths, p, bone, (n - 1) as nat) + (if p(n - 1) && lengths[n - 1] > bone {
            1nat
        } else {
            0nat
        })
    }
}

proof fn samples_prefix(lengths: Seq<usize>, a: Seq<usize>, b: Seq<usize>, bone: int, n: nat)
    requires
        n <= a.len() && n <= b.len(),
        forall|k: int| 0 <= k < n ==> a[k] == b[k],
    ensures
        samples(lengths, a, bone, n) == samples(lengths, b, bone, n),
    decreases n,
{
    if n > 0 {
        samples_prefix(lengths, a, b, bone, (n - 1) as nat);
    }
}

proof fn samples_listed(lengths: Seq<usize>, p: spec_fn(int) -> bool, bone: int, n: nat)
    requires
        n <= lengths.len() <= usize::MAX,
    ensures
        ({
            let list = listing::as_usize(listing::indices_where(n, p));
            samples(lengths, list, bone, list.len()) == samples_where(lengths, p, bone, n)
        }),
    decreases n,
{
    if n > 0 {
        samples_listed(lengths, p, bone, (n - 1) as nat);
        let a = listing::as_usize(listing::indices_where((n - 1) as nat, p));
        let b = listing::as_usize(listing::indices_where(n, p));
        samples_prefix(lengths, a, b, bone, a.len());
        if !p(n - 1) {
            assert(a =~= b);
        }
    }
}

/// The first `n` cells of the groups take in exactly their samples.
proof fn groups_take_in(
    lengths: Seq<usize>,
    cells: Seq<u32>,
    groups: Seq<CellFrames>,
    bone: int,
    n: nat,
)
    requires
        sorts(groups, cells),
        lengths.len() == cells.len() <= usize::MAX,
        n <= groups.len(),
    ensures
        group_samples(lengths, groups, bone, n) == samples_where(
            lengths,
            in_first(groups, n, cells),
            bone,
            cells.len(),
        ),
    decreases n,
{
    let now = in_first(groups, n, cells);
    if n == 0 {
        assert forall|f: int| 0 <= f < cells.len() implies !#[trigger] now(f) by {}
        none_sampled(lengths, now, bone, cells.len());
    } else {
        let m = (n - 1) as nat;
        groups_take_in(lengths, cells, groups, bone, m);
        let then = in_first(groups, m, cells);
        let cell = groups[m as int].cell;
        let here = falls_in(cells, cell);
        assert(groups[m as int].frames@ == listing::as_usize(frames_of(cells, cell)));
        samples_listed(lengths, here, bone, cells.len());
        assert forall|f: int| 0 <= f < cells.len() implies #[trigger] now(f) == (then(f) || here(f))
            && !(then(f) && here(f)) by {
            if here(f) {
                assert(groups[m as int].cell == cells[f]);
                if then(f) {
                    let g = choose|g: int| 0 <= g < m && (#[trigger] groups[g]).cell == cells[f];
                    assert(groups[g].cell != groups[m as int].cell);
                }
            }
        }
        samples_split(lengths, now, then, here, bone, cells.len());
    }
}

/// Whether a frame falls into one of the first `n` groups.
spec fn in_first(groups: Seq<CellFrames>, n: nat, cells: Seq<u32>) -> spec_fn(int) -> bool {
    |f: int| exists|i: int| 0 <= i < n && (#[trigger] groups[i]).cell == cells[f]
}

proof fn none_sampled(lengths: Seq<usize>, p: spec_fn(int) -> bool, bone: int, n: nat)
    requires
        forall|f: int| 0 <= f < n ==> !#[trigger] p(f),
    ensures
        samples_where(lengths, p, bone, n) == 0,
    decreases n,
{
    if n > 0 {
        none_sampled(lengths, p, bone, (n - 1) as nat);
    }
}

proof fn samples_split(
    lengths: Seq<usize>,
    p: spec_fn(int) -> bool,
    q: spec_fn(int) -> bool,
    r: spec_fn(int) -> bool,
    bone: int,
    n: nat,
)
    requires
        forall|f: int| 0 <= f < n ==> #[trigger] p(f) == (q(f) || r(f)) && !(q(f) && r(f)),
    ensures
        samples_where(lengths, p, bone, n) == samples_where(lengths, q, bone, n) + samples_where(
            lengths,
            r,
            bone,
            n,
        ),
    decreases n,
{
    if n > 0 {
        samples_split(lengths, p, q, r, bone, (n - 1) as nat);
        assert(p(n - 1) == (q(n - 1) || r(n - 1)));
    }
}

/// The cells share out the samples: for every bone, the samples of all cells
/// together are the samples of all frames.
pub proof fn cells_share_out_samples(
    lengths: Seq<usize>,
    cells: Seq<u32>,
    groups: Seq<CellFrames>,
    bone: int,
)
    requires
        sorts(groups, cells),
        lengths.len() == cells.len() <= usize::MAX,
    ensures
        group_samples(lengths, groups, bone, groups.len()) == samples(
            lengths,
            Seq::new(cells.len(), |f: int| f as usize),
            bone,
            cells.len(),
        ),
{
    let all = |f: int| true;
    let taken = in_first(groups, groups.len(), cells);
    let none = |f: int| false;
    groups_take_in(lengths, cells, groups, bone, groups.len());
    assert forall|f: int| 0 <= f < cells.len() implies #[trigger] all(f) == (taken(f) || none(f))
        && !(taken(f) && none(f)) by {
        assert(has_group(groups, cells[f]));
    }
    samples_split(lengths, all, taken, none, bone, cells.len());
    none_sampled(lengths, none, bone, cells.len());
    samples_listed(lengths, all, bone, cells.len());
    every_frame_listed(cells.len());
    let list = listing::as_usize(listing::indices_where(cells.len(), all));
    assert(list =~= Seq::new(cells.len(), |f: int| f as usize));
}

proof fn every_frame_listed(n: nat)
    ensures
        listing::indices_where(n, |f: int| true) == Seq::new(n, |f: int| f),
    decreases n,
{
    if n > 0 {
        every_frame_listed((n - 1) as nat);
    }
    assert(listing::indices_where(n, |f: int| true) =~= Seq::new(n, |f: int| f));
}

/// A frame is in a group exactly if its goal falls into the group's cell, so
/// every frame is in one group and in no other.
pub proof fn every_frame_is_in_one_group(
    groups: Seq<CellFrames>,
    cells: Seq<u32>,
    f: usize,
    i: int,
)
    requires
        sorts(groups, cells),
        cells.len() <= usize::MAX,
        f < cells.len(),
        0 <= i < groups.len(),
    ensures
        groups[i].frames@.contains(f) <==> groups[i].cell == cells[f as int],
        exists|j: int| 0 <= j < groups.len() && (#[trigger] groups[j]).frames@.contains(f),
{
    assert forall|j: int| 0 <= j < groups.len() implies (#[trigger] groups[j]).frames@.contains(f)
        == (groups[j].cell == cells[f as int]) by {
        let cell = groups[j].cell;
        let p = falls_in(cells, cell);
        let list = frames_of(cells, cell);
        listing::listed_iff_satisfied(cells.len(), p, f as int);
        listing::listed_ascending(cells.len(), p);
        let frames = groups[j].frames@;
        assert(frames == listing::as_usize(list));
        if list.contains(f as int) {
            assert(frames[list.index_of(f as int)] == f);
        }
        if frames.contains(f) {
            let k = frames.index_of(f);
            assert(0 <= list[k] < cells.len());
            assert(list[k] == f);
        }
    }
    assert(has_group(groups, cells[f as int]));
}

/// The samples of a bone are counted one by one: they are as many as there are
/// listed frames that hold more rotations than the bone's number, never more
/// than the frames, and a later bone has no more of them than an earlier one.
pub proof fn samples_count_frames(
    lengths: Seq<usize>,
    frames: Seq<usize>,
    bone: int,
    later: int,
    n: nat,
)
    requires
        n <= frames.len(),
        bone <= later,
    ensures
        samples(lengths, frames, bone, n) == listing::indices_where(
            n,
            |k: int| bone < lengths[frames[k] as int],
        ).len(),
        samples(lengths, frames, bone, n) <= n,
        samples(lengths, frames, later, n) <= samples(lengths, frames, bone, n),
    decreases n,
{
    if n > 0 {
        samples_count_frames(lengths, frames, bone, later, (n - 1) as nat);
    }
}

} // verus!
