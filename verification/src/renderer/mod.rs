//! The renderers.
pub mod vulkan;
