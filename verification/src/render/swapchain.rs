//! Surface settings: format, presentation, size and number of images.
use vstd::prelude::*;

verus! {

/// The driver's number for 8-bit BGRA in sRGB.
pub const B8G8R8A8_SRGB: i32 = 50;

/// The driver's number for the non-linear sRGB colour space.
pub const SRGB_NONLINEAR: i32 = 0;

/// The driver's number for the mode that replaces a waiting image.
pub const MAILBOX: i32 = 1;

/// The driver's number for the mode that queues images.
pub const FIFO: i32 = 2;

/// A pixel format with the colour space it is shown in.
#[derive(Debug, Clone, Copy, PartialEq, Eq, Structural)]
pub struct SurfaceFormat {
    pub format: i32,
    pub color_space: i32,
}

/// A size in pixels.
#[derive(Debug, Clone, Copy, PartialEq, Eq, Structural)]
pub struct Extent {
    pub width: u32,
    pub height: u32,
}

/// What a surface accepts.
#[derive(Debug, Clone, Copy)]
pub struct SurfaceLimits {
    pub min_extent: Extent,
    pub max_extent: Extent,
    pub min_image_count: u32,
    /// Zero for no limit.
    pub max_image_count: u32,
}

/// The settings a swapchain is created with.
#[derive(Debug, Clone, Copy, PartialEq, Eq, Structural)]
pub struct SwapchainPlan {
    pub format: SurfaceFormat,
    pub present_mode: i32,
    pub extent: Extent,
    pub image_count: u32,
}

/// The format that is preferred wherever it is offered.
pub open spec fn preferred(f: SurfaceFormat) -> bool {
    f.format == B8G8R8A8_SRGB && f.color_space == SRGB_NONLINEAR
}

/// The first preferred format among those from `i` on, else the first of all.
pub open spec fn format_from(formats: Seq<SurfaceFormat>, i: int) -> SurfaceFormat
    decreases formats.len() - i,
{
    if i >= formats.len() {
        formats[0]
    } else if preferred(formats[i]) {
        formats[i]
    } else {
        format_from(formats, i + 1)
    }
}

/// Pick the pixel format.
pub fn choose_format(formats: &Vec<SurfaceFormat>) -> (r: SurfaceFormat)
    requires
        formats@.len() > 0,
    ensures
        r == format_from(formats@, 0),
{
    let mut i: usize = 0;
    while i < formats.len()
        invariant
            i <= formats.len(),
            format_from(formats@, 0) == format_from(formats@, i as int),
        decreases formats.len() - i,
    {
        if formats[i].format == B8G8R8A8_SRGB && formats[i].color_space == SRGB_NONLINEAR {
            return formats[i];
        }
        i += 1;
    }
    formats[0]
}

/// Replace waiting images where that is offered, else queue.
pub open spec fn present_mode_of(modes: Seq<i32>) -> i32 {
    if modes.contains(MAILBOX) {
        MAILBOX
    } else {
        FIFO
    }
}

/// Pick the presentation mode.
pub fn choose_present_mode(modes: &Vec<i32>) -> (r: i32)
    ensures
        r == present_mode_of(modes@),
{
    let mut i: usize = 0;
    while i < modes.len()
        invariant
            i <= modes.len(),
            forall|j: int| 0 <= j < i ==> modes@[j] != MAILBOX,
        decreases modes.len() - i,
    {
        if modes[i] == MAILBOX {
            assert(modes@[i as int] == MAILBOX);
            return MAILBOX;
        }
        i += 1;
    }
    FIFO
}

/// `v` moved into the range from `low` to `high`.
pub open spec fn clamped(v: u32, low: u32, high: u32) -> u32 {
    if v < low {
        low
    } else if v > high {
        high
    } else {
        v
    }
}

fn clamp(v: u32, low: u32, high: u32) -> (r: u32)
    ensures
        r == clamped(v, low, high),
{
    if v < low {
        low
    } else if v > high {
        high
    } else {
        v
    }
}

impl SurfaceLimits {
    /// The least size does not exceed the greatest, and there is room for one
    /// more image than the least number.
    pub open spec fn wf(&self) -> bool {
        &&& self.min_extent.width <= self.max_extent.width
        &&& self.min_extent.height <= self.max_extent.height
        &&& self.min_image_count < u32::MAX
    }

    /// The size nearest to the wanted one that the surface accepts.
    pub open spec fn extent_for(&self, width: u32, height: u32) -> Extent {
        Extent {
            width: clamped(width, self.min_extent.width, self.max_extent.width),
            height: clamped(height, self.min_extent.height, self.max_extent.height),
        }
    }

    /// One image more than the least number, within the greatest.
    pub open spec fn image_count(&self) -> u32 {
        if self.max_image_count > 0 && self.max_image_count < self.min_image_count + 1 {
            self.max_image_count
        } else {
            (self.min_image_count + 1) as u32
        }
    }
}

/// Settle a swapchain for a window of the given size.
pub fn plan_swapchain(
    limits: &SurfaceLimits,
    formats: &Vec<SurfaceFormat>,
    present_modes: &Vec<i32>,
    width: u32,
    height: u32,
) -> (r: SwapchainPlan)
    requires
        limits.wf(),
        formats@.len() > 0,
    ensures
        r == (SwapchainPlan {
            format: format_from(formats@, 0),
            present_mode: present_mode_of(present_modes@),
            extent: limits.extent_for(width, height),
            image_count: limits.image_count(),
        }),
{
    let wanted: u32 = limits.min_image_count + 1;
    let image_count: u32 = if limits.max_image_count > 0 && limits.max_image_count < wanted {
        limits.max_image_count
    } else {
        wanted
    };
    SwapchainPlan {
        format: choose_format(formats),
        present_mode: choose_present_mode(present_modes),
        extent: Extent {
            width: clamp(width, limits.min_extent.width, limits.max_extent.width),
            height: clamp(height, limits.min_extent.height, limits.max_extent.height),
        },
        image_count,
    }
}

/// The settled size and number of images lie within what the surface accepts,
/// and a size that it accepts is taken as it is.
pub proof fn plan_is_accepted(limits: SurfaceLimits, width: u32, height: u32)
    requires
        limits.wf(),
        limits.max_image_count == 0 || limits.min_image_count <= limits.max_image_count,
    ensures
        limits.min_extent.width <= limits.extent_for(width, height).width
            <= limits.max_extent.width,
        limits.min_extent.height <= limits.extent_for(width, height).height
            <= limits.max_extent.height,
        limits.min_extent.width <= width <= limits.max_extent.width && limits.min_extent.height
            <= height <= limits.max_extent.height ==> limits.extent_for(width, height) == (Extent {
            width,
            height,
        }),
        limits.min_image_count <= limits.image_count(),
        limits.max_image_count > 0 ==> limits.image_count() <= limits.max_image_count,
{
}

/// The chosen format is one of those offered, and a preferred one wherever one
/// is offered.
pub proof fn chosen_format_is_offered(formats: Seq<SurfaceFormat>)
    requires
        formats.len() > 0,
    ensures
        formats.contains(format_from(formats, 0)),
        (exists|i: int| 0 <= i < formats.len() && preferred(#[trigger] formats[i])) ==> preferred(
            format_from(formats, 0),
        ),
{
    chosen_from(formats, 0);
}

proof fn chosen_from(formats: Seq<SurfaceFormat>, from: int)
    requires
        formats.len() > 0,
        0 <= from <= formats.len(),
    ensures
        formats.contains(format_from(formats, from)),
        (exists|i: int| from <= i < formats.len() && preferred(#[trigger] formats[i])) ==> preferred(
            format_from(formats, from),
        ),
    decreases formats.len() - from,
{
    if from < formats.len() && !preferred(formats[from]) {
        chosen_from(formats, from + 1);
    }
}

/// No size that the surface accepts is nearer to the wanted one than the settled
/// size, in width or in height.
pub proof fn settled_extent_is_nearest(
    limits: SurfaceLimits,
    width: u32,
    height: u32,
    accepted: Extent,
)
    requires
        limits.wf(),
        limits.min_extent.width <= accepted.width <= limits.max_extent.width,
        limits.min_extent.height <= accepted.height <= limits.max_extent.height,
    ensures
        ({
            let e = limits.extent_for(width, height);
            &&& width <= e.width ==> e.width <= accepted.width || accepted.width < width
            &&& e.width <= width ==> accepted.width <= e.width || width < accepted.width
            &&& height <= e.height ==> e.height <= accepted.height || accepted.height < height
            &&& e.height <= height ==> accepted.height <= e.height || height < accepted.height
            &&& e.width < width ==> e.width == limits.max_extent.width
            &&& width < e.width ==> e.width == limits.min_extent.width
            &&& e.height < height ==> e.height == limits.max_extent.height
            &&& height < e.height ==> e.height == limits.min_extent.height
        }),
{
}

/// There is one image more than the least number wherever the surface takes so
/// many; zero as the greatest number stands for no bound. Otherwise there are
/// as many as it takes.
pub proof fn one_image_to_spare(limits: SurfaceLimits)
    requires
        limits.wf(),
    ensures
        limits.max_image_count == 0 || limits.max_image_count > limits.min_image_count
            ==> limits.image_count() == limits.min_image_count + 1,
        0 < limits.max_image_count <= limits.min_image_count ==> limits.image_count()
            == limits.max_image_count,
{
}

/// Waiting images are replaced exactly if the surface offers that; otherwise
/// they queue, which every surface offers.
pub proof fn images_are_replaced_where_offered(modes: Seq<i32>, mode: i32)
    ensures
        present_mode_of(modes) == 1 <==> modes.contains(1),
        present_mode_of(modes) == 1 || present_mode_of(modes) == 2,
        mode != 1 ==> present_mode_of(modes.push(mode)) == present_mode_of(modes),
        present_mode_of(modes.push(1)) == 1,
{
    let more = modes.push(mode);
    assert(modes.push(1)[modes.len() as int] == 1);
    if modes.contains(1) {
        assert(more[modes.index_of(1)] == 1);
    }
    if more.contains(1) && mode != 1 {
        let k = more.index_of(1);
        assert(modes[k] == 1);
    }
}

/// Of several preferred formats the first is taken, and without any the first
/// of all.
pub proof fn first_preferred_format_is_taken(formats: Seq<SurfaceFormat>, i: int)
    requires
        0 <= i < formats.len(),
        forall|j: int| 0 <= j < i ==> !preferred(#[trigger] formats[j]),
    ensures
        preferred(formats[i]) ==> format_from(formats, 0) == formats[i],
        i == formats.len() - 1 && !preferred(formats[i]) ==> format_from(formats, 0) == formats[0],
{
    passed_over(formats, 0, i);
    if i == formats.len() - 1 && !preferred(formats[i]) {
        assert(format_from(formats, i + 1) == formats[0]);
    }
}

proof fn passed_over(formats: Seq<SurfaceFormat>, k: int, i: int)
    requires
        0 <= k <= i < formats.len(),
        forall|j: int| 0 <= j < i ==> !preferred(#[trigger] formats[j]),
    ensures
        format_from(formats, k) == format_from(formats, i),
    decreases i - k,
{
    if k < i {
        passed_over(formats, k + 1, i);
    }
}

} // verus!
