//! Skeleton: a flat array of bones with parent indices.
//!
//! Bones stand in topological order (every parent before its children), as the
//! exchange formats list their joints; [`Skeleton::validate`] tells whether a
//! bone list does.
use vstd::prelude::*;
use vstd::string::StringExecFns;
use crate::chain;
use crate::listing;
use crate::reading;
use crate::scalar::Scalar;
use crate::text;

verus! {

/// A four by four matrix in column-major order.
pub type Matrix = [Scalar; 16];

/// The entries of the identity matrix.
pub open spec fn identity_entries() -> Seq<Scalar> {
    Seq::new(16, |i: int| if i % 5 == 0 { Scalar::one() } else { Scalar::zero() })
}

/// The identity matrix.
pub fn identity() -> (m: Matrix)
    ensures
        m@ == identity_entries(),
{
    let o = Scalar::one();
    let z = Scalar::zero();
    let m: Matrix = [o, z, z, z, z, o, z, z, z, z, o, z, z, z, z, o];
    assert(m@ =~= identity_entries());
    m
}

/// A single joint in the skeleton.
#[derive(Clone, Debug, PartialEq, Eq)]
pub struct Bone {
    /// Human-readable name, also used to find the mirror-side bone.
    pub name: String,
    /// Index of the parent in [`Skeleton::bones`], or `None` for a root.
    pub parent: Option<usize>,
    /// Bind-pose transform relative to the parent.
    pub local_bind: Matrix,
}

impl Bone {
    /// A bone with the given rest pose.
    pub fn new(name: &str, parent: Option<usize>, local_bind: Matrix) -> (b: Bone)
        ensures
            b.name@ == name@,
            b.parent == parent,
            b.local_bind == local_bind,
    {
        Bone { name: name.to_owned(), parent, local_bind }
    }

    /// A root bone at the origin with identity orientation.
    pub fn root(name: &str) -> (b: Bone)
        ensures
            b.name@ == name@,
            b.parent is None,
            b.local_bind@ == identity_entries(),
    {
        Bone::new(name, None, identity())
    }
}

/// Every parent precedes its child.
pub open spec fn topological(bones: Seq<Bone>) -> bool {
    forall|i: int| 0 <= i < bones.len() ==> !misplaced(bones, i)
}

/// Whether bone `i` names a parent that does not precede it.
pub open spec fn misplaced(bones: Seq<Bone>, i: int) -> bool {
    bones[i].parent matches Some(p) && p >= i
}

/// The parent links of a bone list.
pub open spec fn parents_of(bones: Seq<Bone>) -> Seq<Option<usize>> {
    bones.map_values(|b: Bone| b.parent)
}

/// In topological order every bone has a root.
pub proof fn topological_is_rooted(bones: Seq<Bone>, i: int)
    requires
        topological(bones),
        0 <= i < bones.len(),
    ensures
        chain::has_root(parents_of(bones), i),
{
    let parents = parents_of(bones);
    assert forall|j: int| 0 <= j < parents.len() implies (#[trigger] parents[j] matches Some(p)
        ==> p < j) by {
        assert(!misplaced(bones, j));
    }
    chain::descending_is_rooted(parents, i);
}

/// Message for bone `i`, whose parent `p` does not precede it.
pub open spec fn fault_message(bones: Seq<Bone>, i: int, p: usize) -> Seq<char> {
    let head = "bone "@ + text::decimal(i as nat) + " ('"@ + bones[i].name@;
    if p >= bones.len() {
        head + "') has out-of-range parent "@ + text::decimal(p as nat)
    } else if p == i {
        head + "') is its own parent"@
    } else {
        head + "') has parent "@ + text::decimal(p as nat)
            + " after it; skeleton not in topological order"@
    }
}

/// A hierarchy of bones in topological order.
#[derive(Clone, Debug)]
pub struct Skeleton {
    pub bones: Vec<Bone>,
}

impl Skeleton {
    /// A skeleton without bones.
    pub fn new() -> (s: Skeleton)
        ensures
            s.bones@.len() == 0,
    {
        Skeleton { bones: Vec::new() }
    }

    /// Number of bones.
    pub fn len(&self) -> (n: usize)
        ensures
            n == self.bones@.len(),
    {
        self.bones.len()
    }

    /// Whether there is no bone.
    pub fn is_empty(&self) -> (r: bool)
        ensures
            r == (self.bones@.len() == 0),
    {
        self.bones.len() == 0
    }

    /// Append a bone and return its index. The parent, if any, must already
    /// exist.
    pub fn add(&mut self, bone: Bone) -> (i: usize)
        requires
            bone.parent matches Some(p) ==> p < old(self).bones@.len(),
        ensures
            i == old(self).bones@.len(),
            final(self).bones@ == old(self).bones@.push(bone),
            topological(old(self).bones@) ==> topological(final(self).bones@),
    {
        let ghost before = self.bones@;
        self.bones.push(bone);
        proof {
            if topological(before) {
                assert forall|i: int| 0 <= i < self.bones@.len() implies !misplaced(
                    self.bones@,
                    i,
                ) by {
                    if i < before.len() {
                        assert(!misplaced(before, i));
                    }
                }
            }
        }
        self.bones.len() - 1
    }

    /// The first bone with exactly this name.
    pub fn index_of(&self, name: &str) -> (r: Option<usize>)
        ensures
            match r {
                Some(i) => i < self.bones@.len() && self.bones@[i as int].name@ == name@ && forall|
                    j: int,
                |
                    0 <= j < i ==> (#[trigger] self.bones@[j]).name@ != name@,
                None => forall|j: int|
                    0 <= j < self.bones@.len() ==> (#[trigger] self.bones@[j]).name@ != name@,
            },
    {
        let mut i: usize = 0;
        while i < self.bones.len()
            invariant
                i <= self.bones.len(),
                forall|j: int| 0 <= j < i ==> (#[trigger] self.bones@[j]).name@ != name@,
            decreases self.bones.len() - i,
        {
            if text::same_text(self.bones[i].name.as_str(), name) {
                return Some(i);
            }
            i += 1;
        }
        None
    }

    /// The parent links of all bones.
    pub fn parents(&self) -> (r: Vec<Option<usize>>)
        ensures
            r@ == parents_of(self.bones@),
    {
        let mut r: Vec<Option<usize>> = Vec::new();
        let mut i: usize = 0;
        while i < self.bones.len()
            invariant
                i <= self.bones.len(),
                r@ =~= parents_of(self.bones@.take(i as int)),
            decreases self.bones.len() - i,
        {
            r.push(self.bones[i].parent);
            i += 1;
        }
        assert(self.bones@.take(i as int) =~= self.bones@);
        r
    }

    /// The bones whose local transforms compose the global bind transform of
    /// bone `i`, from the root down to `i` itself.
    pub fn bind_path(&self, i: usize) -> (r: Vec<usize>)
        requires
            chain::has_root(parents_of(self.bones@), i as int),
        ensures
            forall|n: nat|
                chain::rooted(parents_of(self.bones@), i as int, n) ==> r@ == listing::as_usize(
                    #[trigger] chain::ancestry(parents_of(self.bones@), i as int, n),
                ),
    {
        let parents = self.parents();
        chain::path_from_root(&parents, i)
    }

    /// Direct children of bone `i`, in ascending order.
    pub fn children(&self, i: usize) -> (r: Vec<usize>)
        ensures
            r@ == listing::as_usize(
                listing::indices_where(
                    self.bones@.len(),
                    |j: int| self.bones@[j].parent == Some(i),
                ),
            ),
            forall|c: usize|
                #[trigger] r@.contains(c) <==> c < self.bones@.len() && self.bones@[c as int].parent
                    == Some(i),
    {
        let ghost p = |j: int| self.bones@[j].parent == Some(i);
        let mut r: Vec<usize> = Vec::new();
        let mut j: usize = 0;
        while j < self.bones.len()
            invariant
                j <= self.bones.len(),
                p == (|j: int| self.bones@[j].parent == Some(i)),
                r@ == listing::as_usize(listing::indices_where(j as nat, p)),
            decreases self.bones.len() - j,
        {
            let ghost hit = p(j as int);
            let child = match self.bones[j].parent {
                Some(q) => q == i,
                None => false,
            };
            if child {
                r.push(j);
                assert(r@ =~= listing::as_usize(listing::indices_where((j + 1) as nat, p)));
            }
            j += 1;
        }
        proof {
            let n = self.bones@.len();
            assert forall|c: usize| #[trigger] r@.contains(c) == (c < n && p(c as int)) by {
                listing::listed_number_iff_satisfied(n, p, c);
            }
        }
        r
    }

    /// The bones without a parent, in ascending order.
    pub fn roots(&self) -> (r: Vec<usize>)
        ensures
            r@ == listing::as_usize(
                listing::indices_where(
                    self.bones@.len(),
                    |j: int| self.bones@[j].parent is None,
                ),
            ),
            forall|c: usize|
                #[trigger] r@.contains(c) <==> c < self.bones@.len() && self.bones@[c as int].parent
                    is None,
    {
        let ghost p = |j: int| self.bones@[j].parent is None;
        let mut r: Vec<usize> = Vec::new();
        let mut j: usize = 0;
        while j < self.bones.len()
            invariant
                j <= self.bones.len(),
                p == (|j: int| self.bones@[j].parent is None),
                r@ == listing::as_usize(listing::indices_where(j as nat, p)),
            decreases self.bones.len() - j,
        {
            let ghost hit = p(j as int);
            if self.bones[j].parent.is_none() {
                r.push(j);
                assert(r@ =~= listing::as_usize(listing::indices_where((j + 1) as nat, p)));
            }
            j += 1;
        }
        proof {
            let n = self.bones@.len();
            assert forall|c: usize| #[trigger] r@.contains(c) == (c < n && p(c as int)) by {
                listing::listed_number_iff_satisfied(n, p, c);
            }
        }
        r
    }

    /// Check the hierarchy: parents in range, none its own ancestor, and every
    /// parent before its child. The message is about the first bone at fault.
    pub fn validate(&self) -> (r: Result<(), String>)
        ensures
            match r {
                Ok(_) => topological(self.bones@),
                Err(message) => exists|i: int|
                    {
                        &&& 0 <= i < self.bones@.len()
                        &&& #[trigger] misplaced(self.bones@, i)
                        &&& forall|j: int| 0 <= j < i ==> !misplaced(self.bones@, j)
                        &&& message@ == fault_message(self.bones@, i, self.bones@[i].parent->0)
                    },
            },
    {
        let mut i: usize = 0;
        while i < self.bones.len()
            invariant
                i <= self.bones.len(),
                forall|j: int| 0 <= j < i ==> !misplaced(self.bones@, j),
            decreases self.bones.len() - i,
        {
            if let Some(p) = self.bones[i].parent {
                if p >= i {
                    assert(misplaced(self.bones@, i as int));
                    let mut message = "bone ".to_owned();
                    text::push_decimal(&mut message, i as u64);
                    message.append(" ('");
                    message.append(self.bones[i].name.as_str());
                    if p >= self.bones.len() {
                        message.append("') has out-of-range parent ");
                        text::push_decimal(&mut message, p as u64);
                    } else if p == i {
                        message.append("') is its own parent");
                    } else {
                        message.append("') has parent ");
                        text::push_decimal(&mut message, p as u64);
                        message.append(" after it; skeleton not in topological order");
                    }
                    return Err(message);
                }
            }
            i += 1;
        }
        Ok(())
    }
}

impl Default for Skeleton {
    /// A skeleton without bones.
    fn default() -> (s: Skeleton)
        ensures
            s.bones@.len() == 0,
    {
        Skeleton::new()
    }
}

/// The entry of the identity in a row and a column is one where they are the
/// same and zero elsewhere.
pub proof fn identity_has_ones_on_its_diagonal(row: int, column: int)
    requires
        0 <= row < 4,
        0 <= column < 4,
    ensures
        identity_entries().len() == 16,
        identity_entries()[4 * column + row].bits == if row == column { 0x3F80_0000u32 } else { 0 },
{
}

/// A skeleton is in topological order exactly if every parent's number is below
/// its child's; adding a bone keeps the order exactly if its parent is there
/// already.
pub proof fn topological_means_parents_below(bones: Seq<Bone>, bone: Bone)
    ensures
        topological(bones) <==> forall|i: int, p: usize|
            0 <= i < bones.len() && (#[trigger] bones[i]).parent == Some(p) ==> #[trigger] below(
                p as int,
                i,
            ),
        topological(bones) ==> (topological(bones.push(bone)) <==> (bone.parent is None
            || bone.parent->0 < bones.len())),
{
    if topological(bones) {
        assert forall|i: int, p: usize|
            0 <= i < bones.len() && (#[trigger] bones[i]).parent == Some(p) implies #[trigger] below(
            p as int,
            i,
        ) by {
            assert(!misplaced(bones, i));
        }
        let more = bones.push(bone);
        if bone.parent is None || bone.parent->0 < bones.len() {
            assert forall|i: int| 0 <= i < more.len() implies !misplaced(more, i) by {
                if i < bones.len() {
                    assert(!misplaced(bones, i));
                    assert(more[i] == bones[i]);
                }
            }
        } else {
            assert(misplaced(more, bones.len() as int));
        }
    } else {
        let i = choose|i: int| 0 <= i < bones.len() && misplaced(bones, i);
        assert(bones[i].parent == Some(bones[i].parent->0));
        assert(!below(bones[i].parent->0 as int, i));
    }
}

/// Whether a number is below another.
pub open spec fn below(a: int, b: int) -> bool {
    a < b
}

/// The message about a bone tells its number and its name, and the number of the
/// parent unless the bone is its own.
pub proof fn fault_messages_name_bone_and_parent(bones: Seq<Bone>, i: int, p: usize)
    requires
        0 <= i < bones.len(),
    ensures
        ({
            let t = fault_message(bones, i, p);
            &&& reading::holds(t, "bone "@ + text::decimal(i as nat) + " ('"@)
            &&& p >= bones.len() ==> reading::holds(
                t,
                " ('"@ + bones[i].name@ + "') has out-of-range parent "@,
            ) && text::ends_in(t, text::decimal(p as nat))
            &&& p < bones.len() && p == i ==> reading::holds(
                t,
                " ('"@ + bones[i].name@ + "') is its own parent"@,
            )
            &&& p < bones.len() && p != i ==> reading::holds(
                t,
                " ('"@ + bones[i].name@ + "') has parent "@,
            ) && reading::holds(
                t,
                "') has parent "@ + text::decimal(p as nat)
                    + " after it; skeleton not in topological order"@,
            )
        }),
{
    broadcast use reading::held_with_more;

    let number = text::decimal(i as nat);
    let name = bones[i].name@;
    let parent = text::decimal(p as nat);
    let a = "bone "@ + number;
    let b = a + " ('"@ + name;
    reading::start_is_held("bone "@, number, " ('"@);
    if p >= bones.len() {
        reading::ending_is_held(a, " ('"@, name, "') has out-of-range parent "@);
        text::endings_come_off(b + "') has out-of-range parent "@, parent, parent);
    } else if p == i {
        reading::ending_is_held(a, " ('"@, name, "') is its own parent"@);
    } else {
        reading::ending_is_held(a, " ('"@, name, "') has parent "@);
        reading::ending_is_held(
            b,
            "') has parent "@,
            parent,
            " after it; skeleton not in topological order"@,
        );
    }
}

} // verus!
