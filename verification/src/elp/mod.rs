//! Decoding what the event sources read: Wayland message headers and DRM
//! page-flip events.
pub mod bytes;
pub mod drm;
pub mod wl;
