//! Window-management, object-store and display-pipeline logic of the hyu
//! Wayland compositor, with its contracts proved by Verus.
use vstd::prelude::*;

pub mod backend;
pub mod client;
pub mod config;
pub mod connection;
pub mod drm;
pub mod draw;
pub mod egl;
pub mod elp;
pub mod gbm;
pub mod global_wrapper;
pub mod libinput;
pub mod point;
pub mod pointer;
pub mod renderer;
pub mod rt;
pub mod state;
pub mod store;
pub mod udev;

pub use config::Config;
pub use global_wrapper::GlobalWrapper;
pub use point::Point;
pub use store::Store;

verus! {
}
