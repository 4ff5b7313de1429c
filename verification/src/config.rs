//! The compositor's settings: the keyboard layout and the DRM card to use.
use vstd::prelude::*;
use vstd::string::StringExecFns;

verus! {

/// The settings, read from `~/.config/hyu/config.json`; a setting that the
/// file leaves out keeps its default.
pub struct Config {
    /// The XKB layout name.
    pub keymap: String,
    /// The path of the DRM card.
    pub card: String,
}

impl Default for Config {
    /// The `us` layout on `/dev/dri/card0`.
    fn default() -> (r: Self)
        ensures
            r.keymap@ == "us"@,
            r.card@ == "/dev/dri/card0"@,
    {
        Config { keymap: String::from_str("us"), card: String::from_str("/dev/dri/card0") }
    }
}

} // verus!
