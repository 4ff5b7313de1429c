//! EGL handles used by the mode-setting back end.
pub use crate::egl::{Config, Context, Image, Surface};
