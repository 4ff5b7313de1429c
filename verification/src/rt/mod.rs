//! The messages that the event producers hand to the compositor.
pub mod producers;
