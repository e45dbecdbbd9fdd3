//! Swapchain decisions: format and image count at creation, whether a resize
//! calls for a rebuild, and what acquire and present results mean.

use vstd::prelude::*;
use crate::error::{InitError, VulkanError};

verus! {

/// The three ways an acquire can succeed: the image is ready, or it can be
/// drawn but the swapchain should be rebuilt afterwards.
#[derive(Debug, Clone, Copy, PartialEq, Eq, Structural)]
pub enum AcquireOutcome {
    Ready(u32),
    Suboptimal(u32),
}

/// How a present succeeded.
#[derive(Debug, Clone, Copy, PartialEq, Eq, Structural)]
pub enum PresentOutcome {
    Done,
    Suboptimal,
}

/// A surface format: raw `VkFormat` and `VkColorSpaceKHR`.
#[derive(Debug, Clone, Copy, PartialEq, Eq, Structural)]
pub struct SurfaceFormat {
    pub format: i32,
    pub color_space: i32,
}

/// A two-dimensional extent.
#[derive(Debug, Clone, Copy, PartialEq, Eq, Structural)]
pub struct Extent2D {
    pub width: u32,
    pub height: u32,
}

/// What the surface capabilities say that creation needs.
#[derive(Debug, Clone, Copy, PartialEq, Eq, Structural)]
pub struct SurfaceCaps {
    pub min_image_count: u32,
    pub max_image_count: u32,
    pub current_extent: Extent2D,
}

/// The choices a swapchain is created with.
#[derive(Debug, Clone, Copy, PartialEq, Eq, Structural)]
pub struct SwapchainConfig {
    pub format: SurfaceFormat,
    pub extent: Extent2D,
    pub image_count: u32,
}

/// One more image than the minimum, capped by the maximum when there is one.
pub open spec fn image_count_spec(min: u32, max: u32) -> u32 {
    if max > 0 && min + 1 > max { max } else { (min + 1) as u32 }
}

/// The image count is one more than the minimum whenever that does not pass
/// a non-zero maximum, and the maximum otherwise: a non-zero maximum caps it
/// and never raises it.
pub proof fn lemma_image_count(min: u32, max: u32)
    requires
        min < u32::MAX,
    ensures
        (max == 0 || min + 1 <= max) ==> image_count_spec(min, max) == min + 1,
        (max > 0 && min + 1 > max) ==> image_count_spec(min, max) == max,
        image_count_spec(min, max) <= min + 1,
        max > 0 ==> image_count_spec(min, max) <= max,
{
}

/// Picks the surface format: B8G8R8A8_UNORM when offered, else the first.
fn pick_format(formats: &Vec<SurfaceFormat>) -> (r: SurfaceFormat)
    requires
        formats@.len() > 0,
    ensures
        (exists|i: int| 0 <= i < formats@.len() && formats@[i].format == 44) ==> {
            &&& r.format == 44
            &&& exists|i: int| 0 <= i < formats@.len() && formats@[i] == r
                && forall|j: int| 0 <= j < i ==> formats@[j].format != 44
        },
        !(exists|i: int| 0 <= i < formats@.len() && formats@[i].format == 44) ==> r == formats@[0],
{
    let wanted = crate::vk_consts::format_b8g8r8a8_unorm();
    let mut i: usize = 0;
    while i < formats.len()
        invariant
            i <= formats@.len(),
            wanted == 44,
            forall|j: int| 0 <= j < i ==> formats@[j].format != 44,
        decreases formats@.len() - i,
    {
        if formats[i].format == wanted {
            return formats[i];
        }
        i = i + 1;
    }
    formats[0]
}

/// Chooses what a swapchain is created with. No format at all, or an extent
/// still undefined (`u32::MAX` wide), is an error; the format is
/// B8G8R8A8_UNORM when offered (else the first), the extent is the current
/// one, and the image count one more than the minimum, capped by the maximum.
pub fn configure(caps: SurfaceCaps, formats: &Vec<SurfaceFormat>) -> (r: Result<SwapchainConfig, VulkanError>)
    requires
        caps.min_image_count < u32::MAX,
    ensures
        formats@.len() == 0 ==> r == Err::<SwapchainConfig, _>(VulkanError::Init(InitError::NoSurfaceFormat)),
        formats@.len() > 0 && caps.current_extent.width == u32::MAX
            ==> r == Err::<SwapchainConfig, _>(VulkanError::Init(InitError::ExtentUndefined)),
        formats@.len() > 0 && caps.current_extent.width != u32::MAX ==> (r matches Ok(c) && {
            &&& c.extent == caps.current_extent
            &&& c.image_count == image_count_spec(caps.min_image_count, caps.max_image_count)
            &&& (caps.max_image_count == 0 || caps.min_image_count + 1 <= caps.max_image_count)
                ==> c.image_count == caps.min_image_count + 1
            &&& (caps.max_image_count > 0 && caps.min_image_count + 1 > caps.max_image_count)
                ==> c.image_count == caps.max_image_count
            &&& (exists|i: int| 0 <= i < formats@.len() && formats@[i].format == 44) ==> {
                &&& c.format.format == 44
                &&& exists|i: int| 0 <= i < formats@.len() && formats@[i] == c.format
                    && forall|j: int| 0 <= j < i ==> formats@[j].format != 44
            }
            &&& !(exists|i: int| 0 <= i < formats@.len() && formats@[i].format == 44) ==> c.format == formats@[0]
        }),
{
    if formats.len() == 0 {
        return Err(VulkanError::Init(InitError::NoSurfaceFormat));
    }
    let format = pick_format(formats);
    if caps.current_extent.width == u32::MAX {
        return Err(VulkanError::Init(InitError::ExtentUndefined));
    }
    let mut image_count = caps.min_image_count + 1;
    if caps.max_image_count > 0 && image_count > caps.max_image_count {
        image_count = caps.max_image_count;
    }
    Ok(SwapchainConfig { format, extent: caps.current_extent, image_count })
}

/// What a resize asks of the swapchain.
#[derive(Debug, Clone, Copy, PartialEq, Eq, Structural)]
pub enum RebuildDecision {
    /// The window is minimized (zero extent): keep the old swapchain.
    Minimized,
    /// The extent did not change: nothing to do.
    Unchanged,
    /// Wait for the device, destroy the old swapchain, create a new one.
    Rebuild,
}

/// Decides what a resize asks of a swapchain of extent `current`, given the
/// surface's extent now.
pub fn rebuild_decision(surface_extent: Extent2D, current: Extent2D) -> (r: RebuildDecision)
    ensures
        r == (if surface_extent.width == 0 || surface_extent.height == 0 {
            RebuildDecision::Minimized
        } else if surface_extent == current {
            RebuildDecision::Unchanged
        } else {
            RebuildDecision::Rebuild
        }),
{
    if surface_extent.width == 0 || surface_extent.height == 0 {
        RebuildDecision::Minimized
    } else if surface_extent.width == current.width && surface_extent.height == current.height {
        RebuildDecision::Unchanged
    } else {
        RebuildDecision::Rebuild
    }
}

/// What an acquire result means: an image (ready or suboptimal), an
/// out-of-date swapchain, or a failure with its code.
pub fn interpret_acquire(result: Result<(u32, bool), i32>) -> (r: Result<AcquireOutcome, VulkanError>)
    ensures
        r == (match result {
            Ok((index, suboptimal)) => Ok(if suboptimal { AcquireOutcome::Suboptimal(index) } else { AcquireOutcome::Ready(index) }),
            Err(code) => Err(if code == -1000001004 { VulkanError::SwapchainOutOfDate } else { VulkanError::Vk(code) }),
        }),
{
    match result {
        Ok((index, suboptimal)) => Ok(if suboptimal { AcquireOutcome::Suboptimal(index) } else { AcquireOutcome::Ready(index) }),
        Err(code) => Err(out_of_date_or(code)),
    }
}

/// What a present result means: done (or suboptimal), an out-of-date
/// swapchain, or a failure with its code.
pub fn interpret_present(result: Result<bool, i32>) -> (r: Result<PresentOutcome, VulkanError>)
    ensures
        r == (match result {
            Ok(suboptimal) => Ok(if suboptimal { PresentOutcome::Suboptimal } else { PresentOutcome::Done }),
            Err(code) => Err(if code == -1000001004 { VulkanError::SwapchainOutOfDate } else { VulkanError::Vk(code) }),
        }),
{
    match result {
        Ok(suboptimal) => Ok(if suboptimal { PresentOutcome::Suboptimal } else { PresentOutcome::Done }),
        Err(code) => Err(out_of_date_or(code)),
    }
}

/// ERROR_OUT_OF_DATE_KHR becomes `SwapchainOutOfDate`; any other code stays a failure.
fn out_of_date_or(code: i32) -> (r: VulkanError)
    ensures
        r == (if code == -1000001004 { VulkanError::SwapchainOutOfDate } else { VulkanError::Vk(code) }),
{
    if code == crate::vk_consts::result_error_out_of_date() {
        VulkanError::SwapchainOutOfDate
    } else {
        VulkanError::Vk(code)
    }
}

} // verus!
