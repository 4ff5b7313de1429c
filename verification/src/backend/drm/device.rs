//! The kernel structures that the mode-setting device exchanges.
pub use crate::drm::{Card, Connector, Crtc, CrtcPageFlip, Encoder, FbCmd, ModeInfo};
