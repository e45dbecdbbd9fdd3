//! Typed failures. An out-of-date swapchain is control flow, not a failure;
//! everything else carries the facts that explain it.

use vstd::prelude::*;

verus! {

/// A setup call of the Vulkan context.
#[derive(Debug, Clone, Copy, PartialEq, Eq, Structural)]
pub enum SetupCall {
    CreateInstance,
    CreateDebugMessenger,
    CreateSurface,
    EnumeratePhysicalDevices,
    CreateDevice,
}

/// Why setting up or using a Vulkan object could not go on.
#[derive(Debug, Clone, Copy, PartialEq, Eq, Structural)]
pub enum InitError {
    /// No memory type allowed by `type_bits` holds every `required` property.
    NoMemoryType { type_bits: u32, required: u32, preferred: u32, type_count: u32 },
    /// A buffer of zero bytes was requested.
    ZeroSizeBuffer,
    /// Host access to a buffer whose memory is not host visible.
    NotHostVisible { write: bool, property_flags: u32 },
    /// Host access to `[offset, offset + len)` beyond the allocation.
    HostRangeOutOfBounds { write: bool, offset: u64, len: u64, allocation_size: u64 },
    /// The surface reports no format at all.
    NoSurfaceFormat,
    /// The surface extent is still undefined (`u32::MAX` wide).
    ExtentUndefined,
    /// No physical device reports Vulkan 1.3 and a graphics+present family.
    NoSuitableDevice,
    /// The chosen device lacks timeline semaphores or dynamic rendering.
    MissingFeatures { timeline_semaphore: u32, dynamic_rendering: u32 },
    /// The primary window has no raw handle yet.
    NoPrimaryWindow,
    /// The window is not a Win32 window.
    UnsupportedWindowHandle,
    /// The Vulkan loader library could not be loaded.
    LoaderUnavailable,
    /// A setup call failed with this raw `VkResult` code.
    SetupFailed { call: SetupCall, code: i32 },
}

/// Why the upload ledger refused an operation.
#[derive(Debug, Clone, Copy, PartialEq, Eq, Structural)]
pub enum UploadError {
    /// The mesh with this identity already has a residency entry.
    DuplicateResidency { id: u128 },
}

/// Errors of the renderer.
#[derive(Debug, Clone, Copy, PartialEq, Eq, Structural)]
pub enum VulkanError {
    /// The swapchain no longer matches the surface: rebuild and retry.
    SwapchainOutOfDate,
    /// A Vulkan call failed with this raw `VkResult` code.
    Vk(i32),
    /// Setup or host access failed; the variant says why.
    Init(InitError),
    /// The upload ledger refused an operation.
    Upload(UploadError),
}

} // verus!
