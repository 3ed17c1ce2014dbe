//! Parent links: walking from a node up to its root, and ordering nodes so that
//! parents come first.
use vstd::prelude::*;
use crate::listing;

verus! {

/// Whether parent links lead from node `i` to a root in at most `n` steps.
pub open spec fn rooted(parents: Seq<Option<usize>>, i: int, n: nat) -> bool
    decreases n,
{
    0 <= i < parents.len() && match parents[i] {
        None => true,
        Some(p) => n > 0 && rooted(parents, p as int, (n - 1) as nat),
    }
}

/// Whether parent links lead from node `i` to a root.
pub open spec fn has_root(parents: Seq<Option<usize>>, i: int) -> bool {
    exists|n: nat| rooted(parents, i, n)
}

/// Whether every node has a root, so that no links run in a circle.
pub open spec fn all_rooted(parents: Seq<Option<usize>>) -> bool {
    forall|i: int| 0 <= i < parents.len() ==> #[trigger] has_root(parents, i)
}

/// The nodes from the root down to node `i`, for a node rooted in `n` steps.
pub open spec fn ancestry(parents: Seq<Option<usize>>, i: int, n: nat) -> Seq<int>
    decreases n,
{
    match parents[i] {
        Some(p) if n > 0 => ancestry(parents, p as int, (n - 1) as nat).push(i),
        _ => seq![i],
    }
}

/// A bound on the steps to the root may be raised.
pub proof fn rooted_more(parents: Seq<Option<usize>>, i: int, n: nat, m: nat)
    requires
        rooted(parents, i, n),
        n <= m,
    ensures
        rooted(parents, i, m),
    decreases n,
{
    if let Some(p) = parents[i] {
        rooted_more(parents, p as int, (n - 1) as nat, (m - 1) as nat);
    }
}

/// The path to the root does not depend on the bound.
pub proof fn ancestry_same(parents: Seq<Option<usize>>, i: int, n: nat, m: nat)
    requires
        rooted(parents, i, n),
        rooted(parents, i, m),
    ensures
        ancestry(parents, i, n) == ancestry(parents, i, m),
    decreases n,
{
    if let Some(p) = parents[i] {
        ancestry_same(parents, p as int, (n - 1) as nat, (m - 1) as nat);
    }
}

/// Links that lead to lower numbers only never run in a circle.
pub proof fn descending_is_rooted(parents: Seq<Option<usize>>, i: int)
    requires
        forall|j: int|
            0 <= j < parents.len() ==> (#[trigger] parents[j] matches Some(p) ==> p < j),
        0 <= i < parents.len(),
    ensures
        rooted(parents, i, i as nat),
    decreases i,
{
    assert(parents[i] matches Some(p) ==> p < i);
    if let Some(p) = parents[i] {
        descending_is_rooted(parents, p as int);
        rooted_more(parents, p as int, p as nat, (i - 1) as nat);
    }
}

/// The nodes from the root down to node `i`.
pub fn path_from_root(parents: &Vec<Option<usize>>, i: usize) -> (r: Vec<usize>)
    requires
        has_root(parents@, i as int),
    ensures
        forall|n: nat|
            rooted(parents@, i as int, n) ==> r@ == listing::as_usize(
                #[trigger] ancestry(parents@, i as int, n),
            ),
{
    let ghost steps = choose|n: nat| rooted(parents@, i as int, n);
    let ghost whole = ancestry(parents@, i as int, steps);
    let mut up: Vec<usize> = Vec::new();
    let mut at: usize = i;
    let ghost mut left = steps;
    assert(whole =~= ancestry(parents@, at as int, left) + Seq::<int>::empty());
    loop
        invariant_except_break
            rooted(parents@, at as int, left),
            whole == ancestry(parents@, at as int, left) + up@.reverse().map_values(
                |u: usize| u as int,
            ),
        ensures
            whole == up@.reverse().map_values(|u: usize| u as int),
        decreases left,
    {
        let ghost tail = up@;
        let parent = parents[at];
        up.push(at);
        proof {
            assert(up@.reverse() =~= seq![at] + tail.reverse());
        }
        match parent {
            Some(p) => {
                proof {
                    let above = ancestry(parents@, p as int, (left - 1) as nat);
                    assert(above.push(at as int) + tail.reverse().map_values(|u: usize| u as int)
                        =~= above + up@.reverse().map_values(|u: usize| u as int));
                    left = (left - 1) as nat;
                }
                at = p;
            },
            None => {
                assert(seq![at as int] + tail.reverse().map_values(|u: usize| u as int)
                    =~= up@.reverse().map_values(|u: usize| u as int));
                break;
            },
        }
    }
    let mut r: Vec<usize> = Vec::new();
    let mut k: usize = up.len();
    while k > 0
        invariant
            k <= up@.len(),
            r@.len() == up@.len() - k,
            forall|j: int| 0 <= j < r@.len() ==> r@[j] == up@[up@.len() - 1 - j],
        decreases k,
    {
        k -= 1;
        r.push(up[k]);
    }
    proof {
        assert(r@ =~= listing::as_usize(whole));
        assert forall|n: nat| rooted(parents@, i as int, n) implies r@ == listing::as_usize(
            #[trigger] ancestry(parents@, i as int, n),
        ) by {
            ancestry_same(parents@, i as int, n, steps);
        }
    }
    r
}

// ── parents first ─────────────────────────────────────────────────────────────

/// Whether node `i` may follow the nodes placed so far: it has no parent, or
/// its parent is placed.
pub open spec fn ready(parents: Seq<Option<usize>>, placed: Seq<int>, i: int) -> bool {
    parents[i] matches Some(p) ==> placed.contains(p as int)
}

/// The placed nodes after a sweep over the first `n` nodes, which places every
/// unplaced node that is ready when it is met.
pub open spec fn swept(parents: Seq<Option<usize>>, placed: Seq<int>, n: nat) -> Seq<int>
    decreases n,
{
    if n == 0 {
        placed
    } else {
        let so_far = swept(parents, placed, (n - 1) as nat);
        if !so_far.contains(n - 1) && ready(parents, so_far, n - 1) {
            so_far.push(n - 1)
        } else {
            so_far
        }
    }
}

/// The placed nodes and behind them those of the first `n` nodes that are not
/// placed, in ascending order.
pub open spec fn completed(placed: Seq<int>, n: nat) -> Seq<int>
    decreases n,
{
    if n == 0 {
        placed
    } else {
        let so_far = completed(placed, (n - 1) as nat);
        if so_far.contains(n - 1) {
            so_far
        } else {
            so_far.push(n - 1)
        }
    }
}

/// Sweep until every node is placed; once a sweep places nothing, the rest
/// follows as it stands.
pub open spec fn settled(parents: Seq<Option<usize>>, placed: Seq<int>, sweeps: nat) -> Seq<int>
    decreases sweeps,
{
    if sweeps == 0 || placed.len() >= parents.len() {
        placed
    } else {
        let next = swept(parents, placed, parents.len());
        if next.len() == placed.len() {
            completed(placed, parents.len())
        } else {
            settled(parents, next, (sweeps - 1) as nat)
        }
    }
}

/// The order in which sweeps place the nodes.
pub open spec fn order_of(parents: Seq<Option<usize>>) -> Seq<int> {
    settled(parents, Seq::empty(), parents.len())
}

/// A list of different nodes of `n`.
pub open spec fn distinct_below(s: Seq<int>, n: nat) -> bool {
    s.no_duplicates() && forall|k: int| 0 <= k < s.len() ==> 0 <= #[trigger] s[k] < n
}

/// Every node stands behind its parent.
pub open spec fn parents_precede(parents: Seq<Option<usize>>, s: Seq<int>) -> bool {
    forall|k: int|
        0 <= k < s.len() ==> (parents[#[trigger] s[k]] matches Some(p) ==> s.take(k).contains(
            p as int,
        ))
}

proof fn push_distinct(s: Seq<int>, n: nat, x: int)
    requires
        distinct_below(s, n),
        0 <= x < n,
        !s.contains(x),
    ensures
        distinct_below(s.push(x), n),
{
    let t = s.push(x);
    assert forall|a: int, b: int| 0 <= a < t.len() && 0 <= b < t.len() && a != b implies t[a]
        != t[b] by {
        if a == s.len() {
            assert(s[b] != x);
        }
        if b == s.len() {
            assert(s[a] != x);
        }
    }
}

proof fn push_precede(parents: Seq<Option<usize>>, s: Seq<int>, x: int)
    requires
        parents_precede(parents, s),
        ready(parents, s, x),
    ensures
        parents_precede(parents, s.push(x)),
{
    let t = s.push(x);
    assert forall|k: int| 0 <= k < t.len() implies (parents[#[trigger] t[k]] matches Some(p)
        ==> t.take(k).contains(p as int)) by {
        if k < s.len() {
            assert(s[k] == t[k]);
            assert(t.take(k) =~= s.take(k));
        } else {
            assert(t.take(k) =~= s);
        }
    }
}

proof fn distinct_is_short(s: Seq<int>, n: nat)
    requires
        distinct_below(s, n),
    ensures
        s.len() <= n,
    decreases n,
{
    if n == 0 {
        if s.len() > 0 {
            assert(0 <= s[0] < n);
        }
    } else if s.contains(n - 1) {
        let k = s.index_of(n - 1);
        let t = s.remove(k);
        assert forall|j: int| 0 <= j < t.len() implies 0 <= #[trigger] t[j] < n - 1 by {
            if j < k {
                assert(t[j] == s[j]);
            } else {
                assert(t[j] == s[j + 1]);
            }
        }
        assert(t.no_duplicates());
        distinct_is_short(t, (n - 1) as nat);
    } else {
        assert forall|j: int| 0 <= j < s.len() implies 0 <= #[trigger] s[j] < n - 1 by {
            assert(s[j] != n - 1);
        }
        distinct_is_short(s, (n - 1) as nat);
    }
}

proof fn full_contains(s: Seq<int>, n: nat, x: int)
    requires
        distinct_below(s, n),
        s.len() >= n,
        0 <= x < n,
    ensures
        s.contains(x),
{
    if !s.contains(x) {
        push_distinct(s, n, x);
        distinct_is_short(s.push(x), n);
    }
}

proof fn swept_facts(parents: Seq<Option<usize>>, placed: Seq<int>, n: nat)
    requires
        n <= parents.len(),
        distinct_below(placed, parents.len()),
    ensures
        distinct_below(swept(parents, placed, n), parents.len()),
        placed.len() <= swept(parents, placed, n).len() <= placed.len() + n,
        swept(parents, placed, n).take(placed.len() as int) == placed,
        parents_precede(parents, placed) ==> parents_precede(parents, swept(parents, placed, n)),
        swept(parents, placed, n).len() == placed.len() ==> swept(parents, placed, n) == placed,
        forall|i: int|
            0 <= i < n && swept(parents, placed, n).len() == placed.len() ==> placed.contains(i)
                || !ready(parents, placed, i),
    decreases n,
{
    if n == 0 {
        assert(placed.take(placed.len() as int) =~= placed);
    } else {
        swept_facts(parents, placed, (n - 1) as nat);
        let so_far = swept(parents, placed, (n - 1) as nat);
        if !so_far.contains(n - 1) && ready(parents, so_far, n - 1) {
            push_distinct(so_far, parents.len(), n - 1);
            assert(so_far.push(n - 1).take(placed.len() as int) =~= so_far.take(
                placed.len() as int,
            ));
            if parents_precede(parents, placed) {
                push_precede(parents, so_far, n - 1);
            }
        }
    }
}

proof fn completed_facts(placed: Seq<int>, n: nat, total: nat)
    requires
        n <= total,
        distinct_below(placed, total),
    ensures
        distinct_below(completed(placed, n), total),
        forall|i: int| 0 <= i < n ==> completed(placed, n).contains(i),
        forall|x: int| placed.contains(x) ==> completed(placed, n).contains(x),
    decreases n,
{
    if n > 0 {
        completed_facts(placed, (n - 1) as nat, total);
        let so_far = completed(placed, (n - 1) as nat);
        if !so_far.contains(n - 1) {
            push_distinct(so_far, total, n - 1);
            let after = so_far.push(n - 1);
            assert(after[so_far.len() as int] == n - 1);
            assert forall|x: int| so_far.contains(x) implies after.contains(x) by {
                assert(after[so_far.index_of(x)] == x);
            }
        }
    }
}

proof fn some_node_is_ready(parents: Seq<Option<usize>>, placed: Seq<int>, i: int, n: nat)
    requires
        rooted(parents, i, n),
        !placed.contains(i),
    ensures
        exists|j: int| 0 <= j < parents.len() && !placed.contains(j) && ready(parents, placed, j),
    decreases n,
{
    if !ready(parents, placed, i) {
        let p = parents[i]->0 as int;
        some_node_is_ready(parents, placed, p, (n - 1) as nat);
    }
}

proof fn settled_facts(parents: Seq<Option<usize>>, placed: Seq<int>, sweeps: nat)
    requires
        distinct_below(placed, parents.len()),
        placed.len() + sweeps >= parents.len(),
    ensures
        distinct_below(settled(parents, placed, sweeps), parents.len()),
        forall|i: int|
            0 <= i < parents.len() ==> settled(parents, placed, sweeps).contains(i),
        all_rooted(parents) && parents_precede(parents, placed) ==> parents_precede(
            parents,
            settled(parents, placed, sweeps),
        ),
    decreases sweeps,
{
    if sweeps == 0 || placed.len() >= parents.len() {
        assert forall|i: int| 0 <= i < parents.len() implies placed.contains(i) by {
            full_contains(placed, parents.len(), i);
        }
    } else {
        let next = swept(parents, placed, parents.len());
        swept_facts(parents, placed, parents.len());
        if next.len() == placed.len() {
            completed_facts(placed, parents.len(), parents.len());
            if all_rooted(parents) {
                if exists|i: int| 0 <= i < parents.len() && !placed.contains(i) {
                    let i = choose|i: int| 0 <= i < parents.len() && !placed.contains(i);
                    assert(has_root(parents, i));
                    let n = choose|n: nat| rooted(parents, i, n);
                    some_node_is_ready(parents, placed, i, n);
                    assert(false);
                }
                assert forall|i: int| 0 <= i < parents.len() implies placed.contains(i) by {}
                all_placed_is_long(placed, parents.len());
            }
        } else {
            settled_facts(parents, next, (sweeps - 1) as nat);
        }
    }
}

proof fn all_placed_is_long(placed: Seq<int>, n: nat)
    requires
        distinct_below(placed, n),
        forall|i: int| 0 <= i < n ==> placed.contains(i),
    ensures
        placed.len() >= n,
{
    let all = Seq::new(n, |i: int| i);
    placed.unique_seq_to_set();
    all.unique_seq_to_set();
    assert forall|x: int| all.to_set().contains(x) implies placed.to_set().contains(x) by {
        assert(all.contains(x));
        let k = all.index_of(x);
        assert(placed.contains(k));
    }
    vstd::set_lib::lemma_len_subset(all.to_set(), placed.to_set());
}

/// The order names every node exactly once.
pub proof fn order_is_a_permutation(parents: Seq<Option<usize>>)
    ensures
        order_of(parents).no_duplicates(),
        order_of(parents).len() == parents.len(),
        forall|i: int| 0 <= i < parents.len() ==> order_of(parents).contains(i),
        forall|k: int| 0 <= k < order_of(parents).len() ==> 0 <= #[trigger] order_of(parents)[k]
            < parents.len(),
{
    settled_facts(parents, Seq::empty(), parents.len());
    distinct_is_short(order_of(parents), parents.len());
    all_placed_is_long(order_of(parents), parents.len());
}

/// Where no links run in a circle, every node stands behind its parent.
pub proof fn order_puts_parents_first(parents: Seq<Option<usize>>)
    requires
        all_rooted(parents),
    ensures
        parents_precede(parents, order_of(parents)),
{
    settled_facts(parents, Seq::empty(), parents.len());
}

proof fn sweep_in_order(parents: Seq<Option<usize>>, n: nat)
    requires
        n <= parents.len(),
        forall|j: int|
            0 <= j < parents.len() ==> (#[trigger] parents[j] matches Some(p) ==> p < j),
    ensures
        swept(parents, Seq::empty(), n) == Seq::new(n, |i: int| i),
    decreases n,
{
    if n > 0 {
        sweep_in_order(parents, (n - 1) as nat);
        let so_far = swept(parents, Seq::empty(), (n - 1) as nat);
        assert(parents[n - 1] matches Some(p) ==> p < n - 1);
        if let Some(p) = parents[n - 1] {
            assert(so_far[p as int] == p);
        }
        assert(so_far.push(n - 1) =~= Seq::new(n, |i: int| i));
    } else {
        assert(Seq::<int>::empty() =~= Seq::new(0, |i: int| i));
    }
}

/// Nodes that already follow their parents keep their order.
pub proof fn ordered_nodes_stay(parents: Seq<Option<usize>>)
    requires
        forall|j: int|
            0 <= j < parents.len() ==> (#[trigger] parents[j] matches Some(p) ==> p < j),
    ensures
        order_of(parents) == Seq::new(parents.len(), |i: int| i),
{
    sweep_in_order(parents, parents.len());
    reveal_with_fuel(settled, 2);
    if parents.len() == 0 {
        assert(order_of(parents) =~= Seq::new(0, |i: int| i));
    }
}

/// Order nodes so that each parent precedes its children. Nodes are placed in
/// sweeps over the list; nodes whose links run in a circle follow as they
/// stand.
pub fn parents_first(parents: &Vec<Option<usize>>) -> (order: Vec<usize>)
    requires
        forall|i: int|
            0 <= i < parents@.len() ==> (#[trigger] parents@[i] matches Some(p) ==> p
                < parents@.len()),
    ensures
        order@.map_values(|u: usize| u as int) == order_of(parents@),
{
    let n: usize = parents.len();
    let mut flags: Vec<bool> = Vec::new();
    flags.resize(n, false);
    let mut order: Vec<usize> = Vec::new();
    let ghost mut sweeps = n as nat;
    assert(order@.map_values(|u: usize| u as int) =~= Seq::<int>::empty());
    while order.len() < n
        invariant
            n == parents@.len(),
            flags@.len() == n,
            forall|i: int|
                0 <= i < parents@.len() ==> (#[trigger] parents@[i] matches Some(p) ==> p
                    < parents@.len()),
            marks(flags@, order@.map_values(|u: usize| u as int)),
            distinct_below(order@.map_values(|u: usize| u as int), n as nat),
            settled(parents@, order@.map_values(|u: usize| u as int), sweeps) == order_of(parents@),
            order@.len() + sweeps >= n,
        decreases n - order@.len(),
    {
        let before: usize = order.len();
        let ghost placed = order@.map_values(|u: usize| u as int);
        let mut i: usize = 0;
        while i < n
            invariant
                i <= n,
                n == parents@.len(),
                flags@.len() == n,
                forall|i: int|
                    0 <= i < parents@.len() ==> (#[trigger] parents@[i] matches Some(p) ==> p
                        < parents@.len()),
                order@.map_values(|u: usize| u as int) == swept(parents@, placed, i as nat),
                marks(flags@, order@.map_values(|u: usize| u as int)),
            decreases n - i,
        {
            let ghost so_far = order@.map_values(|u: usize| u as int);
            if !flags[i] {
                let free = match parents[i] {
                    Some(p) => flags[p],
                    None => true,
                };
                assert(free == ready(parents@, so_far, i as int));
                if free {
                    order.push(i);
                    flags[i] = true;
                    proof {
                        assert(order@.map_values(|u: usize| u as int) =~= so_far.push(i as int));
                        mark_pushed(so_far, i as int);
                    }
                }
            }
            i += 1;
        }
        proof {
            swept_facts(parents@, placed, n as nat);
        }
        if order.len() == before {
            let mut j: usize = 0;
            while j < n
                invariant
                    j <= n,
                    n == parents@.len(),
                    flags@.len() == n,
                    order@.map_values(|u: usize| u as int) == completed(placed, j as nat),
                    marks(flags@, order@.map_values(|u: usize| u as int)),
                decreases n - j,
            {
                let ghost so_far = order@.map_values(|u: usize| u as int);
                if !flags[j] {
                    order.push(j);
                    flags[j] = true;
                    proof {
                        assert(order@.map_values(|u: usize| u as int) =~= so_far.push(j as int));
                        mark_pushed(so_far, j as int);
                    }
                }
                j += 1;
            }
            proof {
                completed_facts(placed, n as nat, n as nat);
                all_placed_is_long(completed(placed, n as nat), n as nat);
                sweeps = 0;
            }
        } else {
            proof {
                sweeps = (sweeps - 1) as nat;
            }
        }
        proof {
            distinct_is_short(order@.map_values(|u: usize| u as int), n as nat);
        }
    }
    order
}

/// The flags mark exactly the placed nodes.
spec fn marks(flags: Seq<bool>, placed: Seq<int>) -> bool {
    forall|i: int| 0 <= i < flags.len() ==> #[trigger] flags[i] == placed.contains(i)
}

proof fn mark_pushed(s: Seq<int>, x: int)
    ensures
        forall|i: int| #[trigger] s.push(x).contains(i) <==> s.contains(i) || i == x,
{
    let t = s.push(x);
    assert forall|i: int| #[trigger] t.contains(i) <==> s.contains(i) || i == x by {
        if s.contains(i) {
            assert(t[s.index_of(i)] == i);
        }
        assert(t[s.len() as int] == x);
        if t.contains(i) && i != x {
            assert(s[t.index_of(i)] == i);
        }
    }
}

/// The path to a node starts at a root and ends at the node, and each node on it
/// is the parent of the next.
pub proof fn ancestry_leads_down_from_a_root(parents: Seq<Option<usize>>, i: int, n: nat)
    requires
        rooted(parents, i, n),
    ensures
        ancestry(parents, i, n).len() > 0,
        ancestry(parents, i, n).last() == i,
        parents[ancestry(parents, i, n)[0]] is None,
        forall|k: int|
            0 < k < ancestry(parents, i, n).len() ==> parents[#[trigger] ancestry(
                parents,
                i,
                n,
            )[k]] == Some(ancestry(parents, i, n)[k - 1] as usize),
    decreases n,
{
    if let Some(p) = parents[i] {
        ancestry_leads_down_from_a_root(parents, p as int, (n - 1) as nat);
        let above = ancestry(parents, p as int, (n - 1) as nat);
        let all = ancestry(parents, i, n);
        assert forall|k: int| 0 < k < all.len() implies parents[#[trigger] all[k]] == Some(
            all[k - 1] as usize,
        ) by {
            if k < above.len() {
                assert(all[k] == above[k] && all[k - 1] == above[k - 1]);
            }
        }
    }
}

/// Two nodes that hang on the same node, listed before both, or that both hang
/// on nothing keep their order: the later one is placed behind the earlier.
pub proof fn order_keeps_siblings_in_order(parents: Seq<Option<usize>>, i: int, j: int, at: int)
    requires
        0 <= i < j < parents.len(),
        parents[i] == parents[j],
        parents[i] matches Some(p) ==> p < i,
        0 <= at < order_of(parents).len(),
        order_of(parents)[at] == j,
    ensures
        order_of(parents).take(at).contains(i),
{
    settled_keeps(parents, Seq::empty(), parents.len(), i, j);
}

/// Whether a list names node `j` only behind node `i`.
spec fn behind(s: Seq<int>, i: int, j: int) -> bool {
    forall|at: int| 0 <= at < s.len() && #[trigger] s[at] == j ==> s.take(at).contains(i)
}

proof fn push_keeps(s: Seq<int>, x: int, i: int, j: int)
    requires
        behind(s, i, j),
        x == j ==> s.contains(i),
    ensures
        behind(s.push(x), i, j),
{
    let more = s.push(x);
    assert forall|at: int| 0 <= at < more.len() && #[trigger] more[at] == j implies more.take(
        at,
    ).contains(i) by {
        assert(more.take(at) =~= s.take(at));
        if at < s.len() {
            assert(s[at] == j);
        } else {
            assert(s.take(at) =~= s);
        }
    }
}

proof fn met_is_settled(parents: Seq<Option<usize>>, placed: Seq<int>, m: nat, n: nat, x: int)
    requires
        m <= n,
        x < m,
    ensures
        swept(parents, placed, m).contains(x) <==> swept(parents, placed, n).contains(x),
    decreases n,
{
    if m < n {
        met_is_settled(parents, placed, m, (n - 1) as nat, x);
        let so_far = swept(parents, placed, (n - 1) as nat);
        let more = so_far.push(n - 1);
        if so_far.contains(x) {
            assert(more[so_far.index_of(x)] == x);
        }
        if more.contains(x) {
            assert(so_far[more.index_of(x)] == x);
        }
    }
}

proof fn sweep_keeps(parents: Seq<Option<usize>>, placed: Seq<int>, n: nat, i: int, j: int)
    requires
        n <= parents.len(),
        0 <= i < j,
        parents[i] == parents[j],
        parents[i] matches Some(p) ==> p < i,
        behind(placed, i, j),
    ensures
        behind(swept(parents, placed, n), i, j),
    decreases n,
{
    if n > 0 {
        sweep_keeps(parents, placed, (n - 1) as nat, i, j);
        let so_far = swept(parents, placed, (n - 1) as nat);
        if !so_far.contains(n - 1) && ready(parents, so_far, n - 1) {
            if n - 1 == j {
                let met = swept(parents, placed, i as nat);
                if let Some(p) = parents[i] {
                    met_is_settled(parents, placed, i as nat, (n - 1) as nat, p as int);
                }
                assert(ready(parents, met, i));
                let next = swept(parents, placed, (i + 1) as nat);
                if !met.contains(i) {
                    assert(next[met.len() as int] == i);
                }
                met_is_settled(parents, placed, (i + 1) as nat, (n - 1) as nat, i);
            }
            push_keeps(so_far, n - 1, i, j);
        }
    }
}

proof fn completing_keeps(placed: Seq<int>, n: nat, i: int, j: int)
    requires
        0 <= i < j,
        behind(placed, i, j),
    ensures
        behind(completed(placed, n), i, j),
        i < n ==> completed(placed, n).contains(i),
    decreases n,
{
    if n > 0 {
        completing_keeps(placed, (n - 1) as nat, i, j);
        let so_far = completed(placed, (n - 1) as nat);
        if !so_far.contains(n - 1) {
            push_keeps(so_far, n - 1, i, j);
            let more = so_far.push(n - 1);
            assert(more[so_far.len() as int] == n - 1);
            if so_far.contains(i) {
                assert(more[so_far.index_of(i)] == i);
            }
        }
    }
}

proof fn settled_keeps(parents: Seq<Option<usize>>, placed: Seq<int>, sweeps: nat, i: int, j: int)
    requires
        0 <= i < j < parents.len(),
        parents[i] == parents[j],
        parents[i] matches Some(p) ==> p < i,
        behind(placed, i, j),
    ensures
        behind(settled(parents, placed, sweeps), i, j),
    decreases sweeps,
{
    if !(sweeps == 0 || placed.len() >= parents.len()) {
        let next = swept(parents, placed, parents.len());
        sweep_keeps(parents, placed, parents.len(), i, j);
        if next.len() == placed.len() {
            completing_keeps(placed, parents.len(), i, j);
        } else {
            settled_keeps(parents, next, (sweeps - 1) as nat, i, j);
        }
    }
}

} // verus!
