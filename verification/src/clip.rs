//! Motion clips: frames of a root transform and one local rotation per bone,
//! whatever the motion came from.
use vstd::prelude::*;
use crate::scalar::Scalar;
use crate::skeleton::{Matrix, Skeleton};

verus! {

/// One frame of motion.
#[derive(Clone, Debug, PartialEq, Eq)]
pub struct Frame {
    /// World transform of the skeleton root.
    pub root: Matrix,
    /// Local rotation per bone.
    pub local_rotations: Vec<[Scalar; 4]>,
}

/// A named sequence of frames at a fixed rate.
#[derive(Clone, Debug, PartialEq, Eq)]
pub struct Clip {
    pub name: String,
    /// Frames per second.
    pub frame_rate: Scalar,
    pub frames: Vec<Frame>,
}

impl Clip {
    /// Number of frames.
    pub fn len(&self) -> (n: usize)
        ensures
            n == self.frames@.len(),
    {
        self.frames.len()
    }

    /// Whether there is no frame.
    pub fn is_empty(&self) -> (r: bool)
        ensures
            r == (self.frames@.len() == 0),
    {
        self.frames.len() == 0
    }

    /// Number of frame steps that the duration spans; `None` for a duration of
    /// zero, as with fewer than two frames or a rate that is not positive.
    pub fn duration_steps(&self) -> (r: Option<usize>)
        ensures
            r == (if self.frames@.len() < 2 || self.frame_rate.spec_le(Scalar::zero()) {
                None
            } else {
                Some((self.frames@.len() - 1) as usize)
            }),
            r matches Some(n) ==> n >= 1 && n + 1 == self.frames@.len(),
            r is Some && !self.frame_rate.nan() ==> Scalar::zero().spec_lt(self.frame_rate),
            r is None && Scalar::zero().spec_lt(self.frame_rate) ==> self.frames@.len() <= 1,
    {
        if self.frames.len() < 2 || self.frame_rate.at_most(Scalar::zero()) {
            None
        } else {
            Some(self.frames.len() - 1)
        }
    }
}

/// The bone whose world transform a frame records: the only root, or bone zero
/// where there are several or none.
pub fn root_bone(skeleton: &Skeleton) -> (r: usize)
    ensures
        ({
            let roots = crate::listing::indices_where(
                skeleton.bones@.len(),
                |j: int| skeleton.bones@[j].parent is None,
            );
            r == (if roots.len() == 1 {
                roots[0]
            } else {
                0
            })
        }),
        forall|i: int|
            0 <= i < skeleton.bones@.len() && (#[trigger] skeleton.bones@[i]).parent is None && (
            forall|j: int|
                0 <= j < skeleton.bones@.len() && j != i ==> (#[trigger] skeleton.bones@[j]).parent
                    is Some) ==> r == i,
        r != 0 ==> r < skeleton.bones@.len() && skeleton.bones@[r as int].parent is None,
{
    let roots = skeleton.roots();
    proof {
        let n = skeleton.bones.len();
        let p = |j: int| skeleton.bones@[j].parent is None;
        crate::listing::listed_ascending(n as nat, p);
        let list = crate::listing::indices_where(n as nat, p);
        assert forall|i: int|
            0 <= i < n && (#[trigger] skeleton.bones@[i]).parent is None && (forall|j: int|
                0 <= j < n && j != i ==> (#[trigger] skeleton.bones@[j]).parent is Some) implies list
            =~= seq![i] by {
            crate::listing::listed_iff_satisfied(n as nat, p, i);
            let at = list.index_of(i);
            assert forall|k: int| 0 <= k < list.len() implies list[k] == i by {
                assert(p(list[k]));
                assert(skeleton.bones@[list[k]].parent is None);
            }
            if list.len() > 1 {
                assert(list[0] < list[1]);
            }
        }
    }
    if roots.len() == 1 {
        roots[0]
    } else {
        0
    }
}

/// Whether baking an animation takes a single frame, because it has no length
/// or the rate is not positive.
pub fn bakes_single_frame(duration: Scalar, fps: Scalar) -> (r: bool)
    ensures
        r == (duration.spec_le(Scalar::zero()) || fps.spec_le(Scalar::zero())),
        Scalar::zero().spec_lt(duration) && Scalar::zero().spec_lt(fps) ==> !r,
        !r && !duration.nan() && !fps.nan() ==> Scalar::zero().spec_lt(duration)
            && Scalar::zero().spec_lt(fps),
{
    duration.at_most(Scalar::zero()) || fps.at_most(Scalar::zero())
}

} // verus!
