//! Built-in availability probes for transports that need no platform query.

pub mod wifi_direct;
pub mod webrtc;
pub mod mobiledata;
