//! GBM handles used by the mode-setting back end.
pub use crate::gbm::Surface;
