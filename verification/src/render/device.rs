//! Queue family choice.
use vstd::prelude::*;

verus! {

/// The queue families that the renderer submits to.
#[derive(Debug, Clone, Copy)]
pub struct QueueFamilies {
    pub graphics: u32,
}

/// What one queue family can do.
#[derive(Debug, Clone, Copy)]
pub struct FamilySupport {
    pub graphics: bool,
    pub present: bool,
}

impl FamilySupport {
    /// The family can draw and present.
    pub open spec fn suits(&self) -> bool {
        self.graphics && self.present
    }
}

/// Position `i` holds the first family that can draw and present.
pub open spec fn first_suitable(families: Seq<FamilySupport>, i: int) -> bool {
    &&& 0 <= i < families.len()
    &&& families[i].suits()
    &&& forall|j: int| 0 <= j < i ==> !(#[trigger] families[j]).suits()
}

/// Take the first family that can draw and present, if there is one.
pub fn find_queue_families(families: &Vec<FamilySupport>) -> (r: Option<QueueFamilies>)
    ensures
        r is None <==> forall|j: int| 0 <= j < families@.len() ==> !(#[trigger] families@[j]).suits(),
        r matches Some(q) ==> exists|i: int|
            #[trigger] first_suitable(families@, i) && q.graphics == i as u32,
{
    let mut i: usize = 0;
    while i < families.len()
        invariant
            i <= families.len(),
            forall|j: int| 0 <= j < i ==> !(#[trigger] families@[j]).suits(),
        decreases families.len() - i,
    {
        if families[i].graphics && families[i].present {
            assert(first_suitable(families@, i as int));
            return Some(QueueFamilies { graphics: i as u32 });
        }
        i += 1;
    }
    None
}

/// At most one position holds the first family that can draw and present; this
/// family can do both, and each one before it cannot do one of the two.
pub proof fn first_suitable_is_unique(families: Seq<FamilySupport>, i: int, j: int)
    requires
        first_suitable(families, i),
    ensures
        families[i].graphics && families[i].present,
        first_suitable(families, j) ==> i == j,
        0 <= j < i ==> !families[j].graphics || !families[j].present,
{
    if first_suitable(families, j) {
        assert(families[j].suits() && families[i].suits());
    }
    if 0 <= j < i {
        assert(!families[j].suits());
    }
}

} // verus!
