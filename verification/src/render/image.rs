//! Image layouts and the barriers between them.
use vstd::prelude::*;

verus! {

/// The layouts that the renderer's images pass through.
#[derive(Debug, Clone, Copy, PartialEq, Eq, Structural)]
pub enum ImageLayout {
    Undefined,
    ColorAttachment,
    DepthAttachment,
    PresentSource,
    TransferSource,
    TransferTarget,
    ShaderRead,
}

/// A stage of the graphics pipeline, or all of them.
#[derive(Debug, Clone, Copy, PartialEq, Eq, Structural)]
pub enum Stage {
    Top,
    Transfer,
    EarlyFragmentTests,
    FragmentShader,
    ColorOutput,
    Bottom,
    All,
}

/// What a stage does to memory.
#[derive(Debug, Clone, Copy, PartialEq, Eq, Structural)]
pub enum Access {
    Nothing,
    ColorWrite,
    DepthReadWrite,
    TransferWrite,
    ShaderRead,
    AnyReadWrite,
}

/// What must be over before a layout change, and what waits for it.
#[derive(Debug, Clone, Copy, PartialEq, Eq, Structural)]
pub struct Barrier {
    pub source_stage: Stage,
    pub source_access: Access,
    pub target_stage: Stage,
    pub target_access: Access,
}

/// The barrier of a swapchain or texture image that changes its layout: exact
/// for the start and the end of a frame, and one that waits for everything
/// else.
pub fn transition(from: ImageLayout, to: ImageLayout) -> (r: Barrier)
    ensures
        r == (if from is Undefined && to is ColorAttachment {
            Barrier {
                source_stage: Stage::Top,
                source_access: Access::Nothing,
                target_stage: Stage::ColorOutput,
                target_access: Access::ColorWrite,
            }
        } else if from is ColorAttachment && to is PresentSource {
            Barrier {
                source_stage: Stage::ColorOutput,
                source_access: Access::ColorWrite,
                target_stage: Stage::Bottom,
                target_access: Access::Nothing,
            }
        } else {
            Barrier {
                source_stage: Stage::All,
                source_access: Access::AnyReadWrite,
                target_stage: Stage::All,
                target_access: Access::AnyReadWrite,
            }
        }),
{
    match (from, to) {
        (ImageLayout::Undefined, ImageLayout::ColorAttachment) => Barrier {
            source_stage: Stage::Top,
            source_access: Access::Nothing,
            target_stage: Stage::ColorOutput,
            target_access: Access::ColorWrite,
        },
        (ImageLayout::ColorAttachment, ImageLayout::PresentSource) => Barrier {
            source_stage: Stage::ColorOutput,
            source_access: Access::ColorWrite,
            target_stage: Stage::Bottom,
            target_access: Access::Nothing,
        },
        _ => Barrier {
            source_stage: Stage::All,
            source_access: Access::AnyReadWrite,
            target_stage: Stage::All,
            target_access: Access::AnyReadWrite,
        },
    }
}

/// The barriers around the copy that fills a fresh image: before it, from the
/// undefined layout to the transfer target; after it, on to shader reads.
pub fn fill_barriers() -> (r: (Barrier, Barrier))
    ensures
        r.0 == (Barrier {
            source_stage: Stage::Top,
            source_access: Access::Nothing,
            target_stage: Stage::Transfer,
            target_access: Access::TransferWrite,
        }),
        r.1 == (Barrier {
            source_stage: Stage::Transfer,
            source_access: Access::TransferWrite,
            target_stage: Stage::FragmentShader,
            target_access: Access::ShaderRead,
        }),
{
    (
        Barrier {
            source_stage: Stage::Top,
            source_access: Access::Nothing,
            target_stage: Stage::Transfer,
            target_access: Access::TransferWrite,
        },
        Barrier {
            source_stage: Stage::Transfer,
            source_access: Access::TransferWrite,
            target_stage: Stage::FragmentShader,
            target_access: Access::ShaderRead,
        },
    )
}

/// The barrier that readies a fresh depth image.
pub fn depth_barrier() -> (r: Barrier)
    ensures
        r == (Barrier {
            source_stage: Stage::Top,
            source_access: Access::Nothing,
            target_stage: Stage::EarlyFragmentTests,
            target_access: Access::DepthReadWrite,
        }),
{
    Barrier {
        source_stage: Stage::Top,
        source_access: Access::Nothing,
        target_stage: Stage::EarlyFragmentTests,
        target_access: Access::DepthReadWrite,
    }
}

} // verus!
