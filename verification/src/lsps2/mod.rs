//! The LSPS2 (just-in-time channel) protocol.
pub mod buy;
pub mod channel;
pub mod event;
pub mod forwarding;
pub mod model;
pub mod msgs;
pub mod peer;
pub mod service;
pub mod utils;
