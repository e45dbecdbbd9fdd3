use ash_renderer::error::{InitError, VulkanError};
use ash_renderer::swapchain::{
    configure, interpret_acquire, interpret_present, rebuild_decision, AcquireOutcome, Extent2D, PresentOutcome,
    RebuildDecision, SurfaceCaps, SurfaceFormat, SwapchainConfig,
};

const B8G8R8A8_UNORM: i32 = 44;
const R8G8B8A8_SRGB: i32 = 43;
const OUT_OF_DATE: i32 = -1_000_001_004;

fn caps(min: u32, max: u32, width: u32, height: u32) -> SurfaceCaps {
    SurfaceCaps { min_image_count: min, max_image_count: max, current_extent: Extent2D { width, height } }
}

#[test]
fn configure_prefers_bgra_and_one_extra_image() {
    let formats = vec![
        SurfaceFormat { format: R8G8B8A8_SRGB, color_space: 0 },
        SurfaceFormat { format: B8G8R8A8_UNORM, color_space: 1 },
        SurfaceFormat { format: B8G8R8A8_UNORM, color_space: 2 },
    ];
    assert_eq!(
        configure(caps(2, 0, 800, 600), &formats),
        Ok(SwapchainConfig {
            format: SurfaceFormat { format: B8G8R8A8_UNORM, color_space: 1 },
            extent: Extent2D { width: 800, height: 600 },
            image_count: 3,
        })
    );
    // a maximum caps the count
    assert_eq!(configure(caps(3, 3, 800, 600), &formats).map(|c| c.image_count), Ok(3));
    // no BGRA: the first format
    let others = vec![SurfaceFormat { format: R8G8B8A8_SRGB, color_space: 0 }];
    assert_eq!(configure(caps(2, 8, 10, 10), &others).map(|c| c.format.format), Ok(R8G8B8A8_SRGB));
}

#[test]
fn configure_errors() {
    let formats = vec![SurfaceFormat { format: B8G8R8A8_UNORM, color_space: 0 }];
    assert_eq!(configure(caps(2, 0, 800, 600), &Vec::new()), Err(VulkanError::Init(InitError::NoSurfaceFormat)));
    assert_eq!(configure(caps(2, 0, u32::MAX, u32::MAX), &formats), Err(VulkanError::Init(InitError::ExtentUndefined)));
    // no format is reported before an undefined extent
    assert_eq!(configure(caps(2, 0, u32::MAX, 5), &Vec::new()), Err(VulkanError::Init(InitError::NoSurfaceFormat)));
}

#[test]
fn rebuild_only_when_size_changed_and_visible() {
    let current = Extent2D { width: 800, height: 600 };
    assert_eq!(rebuild_decision(Extent2D { width: 0, height: 0 }, current), RebuildDecision::Minimized);
    assert_eq!(rebuild_decision(Extent2D { width: 800, height: 0 }, current), RebuildDecision::Minimized);
    assert_eq!(rebuild_decision(current, current), RebuildDecision::Unchanged);
    assert_eq!(rebuild_decision(Extent2D { width: 1024, height: 600 }, current), RebuildDecision::Rebuild);
}

#[test]
fn acquire_and_present_results() {
    assert_eq!(interpret_acquire(Ok((2, false))), Ok(AcquireOutcome::Ready(2)));
    assert_eq!(interpret_acquire(Ok((1, true))), Ok(AcquireOutcome::Suboptimal(1)));
    assert_eq!(interpret_acquire(Err(OUT_OF_DATE)), Err(VulkanError::SwapchainOutOfDate));
    assert_eq!(interpret_acquire(Err(-4)), Err(VulkanError::Vk(-4)));
    assert_eq!(interpret_present(Ok(false)), Ok(PresentOutcome::Done));
    assert_eq!(interpret_present(Ok(true)), Ok(PresentOutcome::Suboptimal));
    assert_eq!(interpret_present(Err(OUT_OF_DATE)), Err(VulkanError::SwapchainOutOfDate));
    assert_eq!(interpret_present(Err(-3)), Err(VulkanError::Vk(-3)));
}
