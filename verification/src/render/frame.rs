//! What happens to a frame once the driver has answered.
use crate::render::sync;
use crate::render::sync::FrameSync;
use vstd::prelude::*;

verus! {

/// The driver's answer to a request for the next image.
#[derive(Debug, Clone, Copy, PartialEq, Eq, Structural)]
pub enum Acquired {
    Image { index: u32, suboptimal: bool },
    OutOfDate,
    Failed,
}

/// How a frame goes on after that answer.
#[derive(Debug, Clone, Copy, PartialEq, Eq, Structural)]
pub enum FrameStart {
    /// Draw this frame into this image.
    Draw { frame: usize, image: u32 },
    /// The swapchain has to be made anew first.
    Recreate,
    /// The driver failed.
    Fail,
}

/// The driver's answer to a request to present.
#[derive(Debug, Clone, Copy, PartialEq, Eq, Structural)]
pub enum Presented {
    Shown { suboptimal: bool },
    OutOfDate,
    Failed,
}

/// Which pipeline draws the scene.
#[derive(Debug, Clone, Copy, PartialEq, Eq, Structural)]
pub enum ScenePipeline {
    Fill,
    Wire,
}

impl FrameSync {
    /// Draw the frame in turn if a fitting image came; an image that no longer
    /// fits counts like none.
    pub fn begin_frame(&self, acquired: Acquired) -> (r: FrameStart)
        ensures
            r == (match acquired {
                Acquired::Image { index, suboptimal: false } => FrameStart::Draw {
                    frame: self.current_frame,
                    image: index,
                },
                Acquired::Failed => FrameStart::Fail,
                _ => FrameStart::Recreate,
            }),
            r matches FrameStart::Draw { frame, image } ==> frame == self.current_frame && acquired
                == (Acquired::Image { index: image, suboptimal: false }),
            r is Fail <==> acquired is Failed,
            acquired is OutOfDate ==> r is Recreate,
    {
        match acquired {
            Acquired::Image { index, suboptimal } => {
                if suboptimal {
                    FrameStart::Recreate
                } else {
                    FrameStart::Draw { frame: self.current_frame, image: index }
                }
            },
            Acquired::OutOfDate => FrameStart::Recreate,
            Acquired::Failed => FrameStart::Fail,
        }
    }

    /// Hand the turn on and say whether the swapchain still fits. Where the
    /// driver failed there is no answer, and the turn stays.
    pub fn end_frame(&mut self, presented: Presented) -> (r: Option<bool>)
        requires
            old(self).wf(),
        ensures
            final(self).wf(),
            r == (match presented {
                Presented::Shown { suboptimal } => Some(!suboptimal),
                Presented::OutOfDate => Some(false),
                Presented::Failed => None,
            }),
            r is None <==> presented is Failed,
            r == Some(true) <==> presented == (Presented::Shown { suboptimal: false }),
            *final(self) == (if presented is Failed {
                *old(self)
            } else {
                FrameSync {
                    current_frame: sync::next_frame(old(self).current_frame as int) as usize,
                    ..*old(self)
                }
            }),
    {
        let answer = match presented {
            Presented::Shown { suboptimal } => Some(!suboptimal),
            Presented::OutOfDate => Some(false),
            Presented::Failed => None,
        };
        if answer.is_some() {
            self.advance();
        }
        answer
    }
}

/// The wireframe switch picks the pipeline of the scene.
pub fn scene_pipeline(wireframe: bool) -> (r: ScenePipeline)
    ensures
        r == (if wireframe {
            ScenePipeline::Wire
        } else {
            ScenePipeline::Fill
        }),
{
    if wireframe {
        ScenePipeline::Wire
    } else {
        ScenePipeline::Fill
    }
}

} // verus!
