//! Input devices found through udev and read through libinput.
pub mod udev;
