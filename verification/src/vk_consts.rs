//! Raw values of the Vulkan constants that the library's rules speak of, read
//! from `ash`. Each item below is trusted: its contract states the value that
//! `ash` defines for the constant.

use vstd::prelude::*;

verus! {

/// `vk::BufferUsageFlags::TRANSFER_SRC` as raw bits; ash defines it as `0b1`.
#[verifier::external_body]
pub(crate) fn usage_transfer_src() -> (r: u32)
    ensures
        r == 0x1,
{
    ash::vk::BufferUsageFlags::TRANSFER_SRC.as_raw()
}

/// `vk::BufferUsageFlags::TRANSFER_DST` as raw bits; ash defines it as `0b10`.
#[verifier::external_body]
pub(crate) fn usage_transfer_dst() -> (r: u32)
    ensures
        r == 0x2,
{
    ash::vk::BufferUsageFlags::TRANSFER_DST.as_raw()
}

/// `vk::BufferUsageFlags::INDEX_BUFFER` as raw bits; ash defines it as `0b100_0000`.
#[verifier::external_body]
pub(crate) fn usage_index_buffer() -> (r: u32)
    ensures
        r == 0x40,
{
    ash::vk::BufferUsageFlags::INDEX_BUFFER.as_raw()
}

/// `vk::BufferUsageFlags::VERTEX_BUFFER` as raw bits; ash defines it as `0b1000_0000`.
#[verifier::external_body]
pub(crate) fn usage_vertex_buffer() -> (r: u32)
    ensures
        r == 0x80,
{
    ash::vk::BufferUsageFlags::VERTEX_BUFFER.as_raw()
}

/// `vk::MemoryPropertyFlags::DEVICE_LOCAL` as raw bits; ash defines it as `0b1`.
#[verifier::external_body]
pub(crate) fn memory_device_local() -> (r: u32)
    ensures
        r == 0x1,
{
    ash::vk::MemoryPropertyFlags::DEVICE_LOCAL.as_raw()
}

/// `vk::MemoryPropertyFlags::HOST_VISIBLE` as raw bits; ash defines it as `0b10`.
#[verifier::external_body]
pub(crate) fn memory_host_visible() -> (r: u32)
    ensures
        r == 0x2,
{
    ash::vk::MemoryPropertyFlags::HOST_VISIBLE.as_raw()
}

/// `vk::MemoryPropertyFlags::HOST_COHERENT` as raw bits; ash defines it as `0b100`.
#[verifier::external_body]
pub(crate) fn memory_host_coherent() -> (r: u32)
    ensures
        r == 0x4,
{
    ash::vk::MemoryPropertyFlags::HOST_COHERENT.as_raw()
}

/// `vk::MemoryPropertyFlags::HOST_CACHED` as raw bits; ash defines it as `0b1000`.
#[verifier::external_body]
pub(crate) fn memory_host_cached() -> (r: u32)
    ensures
        r == 0x8,
{
    ash::vk::MemoryPropertyFlags::HOST_CACHED.as_raw()
}

/// `vk::QueueFlags::GRAPHICS` as raw bits; ash defines it as `0b1`.
#[verifier::external_body]
pub(crate) fn queue_graphics() -> (r: u32)
    ensures
        r == 0x1,
{
    ash::vk::QueueFlags::GRAPHICS.as_raw()
}

/// `vk::QueueFlags::TRANSFER` as raw bits; ash defines it as `0b100`.
#[verifier::external_body]
pub(crate) fn queue_transfer() -> (r: u32)
    ensures
        r == 0x4,
{
    ash::vk::QueueFlags::TRANSFER.as_raw()
}

/// `vk::PhysicalDeviceType::INTEGRATED_GPU` as a raw value; ash defines it as 1.
#[verifier::external_body]
pub(crate) fn device_type_integrated_gpu() -> (r: i32)
    ensures
        r == 1,
{
    ash::vk::PhysicalDeviceType::INTEGRATED_GPU.as_raw()
}

/// `vk::PhysicalDeviceType::DISCRETE_GPU` as a raw value; ash defines it as 2.
#[verifier::external_body]
pub(crate) fn device_type_discrete_gpu() -> (r: i32)
    ensures
        r == 2,
{
    ash::vk::PhysicalDeviceType::DISCRETE_GPU.as_raw()
}

/// `vk::API_VERSION_1_3`; ash defines it as `make_api_version(0, 1, 3, 0)`,
/// that is `(1 << 22) | (3 << 12)`.
#[verifier::external_body]
pub(crate) fn api_version_1_3() -> (r: u32)
    ensures
        r == 4206592,
{
    ash::vk::API_VERSION_1_3
}

/// `vk::Format::B8G8R8A8_UNORM` as a raw value; ash defines it as 44.
#[verifier::external_body]
pub(crate) fn format_b8g8r8a8_unorm() -> (r: i32)
    ensures
        r == 44,
{
    ash::vk::Format::B8G8R8A8_UNORM.as_raw()
}

/// `vk::Result::ERROR_OUT_OF_DATE_KHR` as a raw value; ash defines it as -1000001004.
#[verifier::external_body]
pub(crate) fn result_error_out_of_date() -> (r: i32)
    ensures
        r == -1000001004,
{
    ash::vk::Result::ERROR_OUT_OF_DATE_KHR.as_raw()
}

} // verus!
