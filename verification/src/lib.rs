//! Core of a streaming client for a multiplexed blockchain data service.
//!
//! Many caller-owned response streams share one full-duplex socket. This
//! crate holds the verified heart of that transport: the envelope codec,
//! the frame parser, the subscription registry, and the decision logic of
//! the connection worker. Socket and channel plumbing lives outside.

use vstd::prelude::*;

pub mod chain;
pub mod client;
pub mod envelope;
pub mod error;
pub mod frame;
pub mod ids;
pub mod laws;
pub mod mira;
pub mod registry;
pub mod requests;
pub mod status;
pub mod worker;

verus! {

/// Number of response frames a caller sink buffers before the worker
/// suspends, pushing backpressure onto the socket.
pub const SINK_BOUND: usize = 5;

} // verus!
