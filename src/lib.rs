//! Host-side bridge that feeds live host state (clock, volume, keyboard
//! layout, now-playing media) to a keyboard's firmware over raw HID, and
//! relays what the firmware sends back.
//!
//! Everything here is the decision logic: wire framing, the per-device
//! reconnect machine, the connectivity supervisor and the change-suppressing
//! providers. Threads, channels and device handles live with the caller.

pub mod data_type;
pub mod protocol;
pub mod supervisor;
pub mod config;
pub mod keyboard;
pub mod providers;
