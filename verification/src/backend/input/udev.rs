//! The udev context of the input back end.
pub use crate::udev::Instance;
