//! The hardware back ends: kernel mode setting and input devices.
pub mod drm;
pub mod input;
