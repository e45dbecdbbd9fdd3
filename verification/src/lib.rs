//! Verified core of a Vulkan mesh renderer: memory-type selection, buffer
//! ledgers, bump pools, upload tickets, mesh byte layout and frame gating.

pub mod context;
pub mod error;
pub mod frames;
pub mod host;
pub mod mesh_convert;
pub mod pool;
pub mod resources;
pub mod swapchain;
pub mod syntax;
pub mod upload;
pub mod uploader;
mod vk_consts;
