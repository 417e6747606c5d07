//! Verified core of an out-of-process traffic inspector for a reverse proxy.
//!
//! Inbound stream frames are modelled by [`frame::Frame`]; the handler logic
//! extracts an identity descriptor from request-header frames, hands it to a
//! bounded FIFO dispatcher, and replies "continue" for every frame. A
//! storage-backed sliding-window abuse detector classifies traffic by
//! threshold, failing open when the store is unreachable.

pub mod dispatcher;
pub mod extract;
pub mod frame;
pub mod service;
pub mod storage;
