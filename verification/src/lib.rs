//! Server side of the LSPS2 just-in-time channel protocol.
//!
//! A Lightning service provider opens a channel to a client at the moment the
//! client's first payment arrives. This crate holds the sequential core of
//! that service: the fee arithmetic, the promise that authenticates a fee
//! menu, the lifecycle of a single just-in-time channel, the per-peer
//! bookkeeping and the handler that ties them together. Every function is
//! stated over a mathematical model and proved against it. One thing is
//! taken on trust: that `bitcoin::hashes` computes HMAC-SHA256.
//!
//! The core is sequential. It reads no clock, takes no lock and calls no
//! node: the caller hands it the time, keeps it behind a lock, and carries
//! out at the node what the core decides.
pub mod assoc_list;
pub mod events;
pub mod ids;
pub mod lsps0;
pub mod lsps2;
pub mod message_queue;

