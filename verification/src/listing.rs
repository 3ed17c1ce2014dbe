//! Ascending index lists: which positions below a bound satisfy a property.
use vstd::prelude::*;

verus! {

/// The positions below `n` that satisfy `p`, in ascending order.
pub open spec fn indices_where(n: nat, p: spec_fn(int) -> bool) -> Seq<int>
    decreases n,
{
    if n == 0 {
        Seq::empty()
    } else {
        let before = indices_where((n - 1) as nat, p);
        if p(n - 1) {
            before.push(n - 1)
        } else {
            before
        }
    }
}

/// Positions as 32-bit vertex or bone numbers.
pub open spec fn as_u32(s: Seq<int>) -> Seq<u32> {
    s.map_values(|i: int| i as u32)
}

/// Positions as machine-size numbers.
pub open spec fn as_usize(s: Seq<int>) -> Seq<usize> {
    s.map_values(|i: int| i as usize)
}

/// A position is listed exactly if it lies below the bound and satisfies the
/// property.
pub proof fn listed_iff_satisfied(n: nat, p: spec_fn(int) -> bool, i: int)
    ensures
        indices_where(n, p).contains(i) <==> 0 <= i < n && p(i),
    decreases n,
{
    if n > 0 {
        let before = indices_where((n - 1) as nat, p);
        listed_iff_satisfied((n - 1) as nat, p, i);
        if p(n - 1) {
            let s = before.push(n - 1);
            if before.contains(i) {
                let k = before.index_of(i);
                assert(s[k] == i);
            }
            if i == n - 1 {
                assert(s[before.len() as int] == i);
            }
            if s.contains(i) {
                let k = s.index_of(i);
                assert(k < before.len() ==> before[k] == i);
            }
        }
    }
}

/// The list ascends strictly, so nothing is listed twice.
pub proof fn listed_ascending(n: nat, p: spec_fn(int) -> bool)
    ensures
        forall|a: int, b: int|
            0 <= a < b < indices_where(n, p).len() ==> indices_where(n, p)[a] < indices_where(n, p)[b],
        forall|a: int|
            0 <= a < indices_where(n, p).len() ==> 0 <= #[trigger] indices_where(n, p)[a] < n && p(
                indices_where(n, p)[a],
            ),
        indices_where(n, p).len() <= n,
    decreases n,
{
    if n > 0 {
        listed_ascending((n - 1) as nat, p);
    }
}

/// Properties that agree below the bound list the same positions.
pub proof fn listed_same(n: nat, p: spec_fn(int) -> bool, q: spec_fn(int) -> bool)
    requires
        forall|i: int| 0 <= i < n ==> #[trigger] p(i) == q(i),
    ensures
        indices_where(n, p) == indices_where(n, q),
    decreases n,
{
    if n > 0 {
        listed_same((n - 1) as nat, p, q);
    }
}

/// A number is listed exactly if it lies below the bound and satisfies the
/// property.
pub proof fn listed_number_iff_satisfied(n: nat, p: spec_fn(int) -> bool, c: usize)
    requires
        n <= usize::MAX,
    ensures
        as_usize(indices_where(n, p)).contains(c) <==> c < n && p(c as int),
{
    let list = indices_where(n, p);
    let numbers = as_usize(list);
    listed_iff_satisfied(n, p, c as int);
    listed_ascending(n, p);
    if list.contains(c as int) {
        assert(numbers[list.index_of(c as int)] == c);
    }
    if numbers.contains(c) {
        let k = numbers.index_of(c);
        assert(0 <= list[k] < n);
        assert(list[k] == c);
    }
}

} // verus!
