//! Device configuration and the Brokenithm touch-controller protocol of
//! slidershim, with their contracts proved by Verus.
//!
//! `device::config` turns the settings object into a [`device::config::DeviceMode`];
//! `device::brokenithm` holds the controller's message format, the
//! per-connection session rules and the HTTP routes of the controller page.
pub mod device;
mod text;
