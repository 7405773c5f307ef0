//! Framed-message pipeline for a byte-stream transport.
//!
//! A continuous, possibly fragmented byte stream is cut into discrete
//! frames by a sentinel delimiter (with an overflow flush-and-carry
//! policy at a fixed capacity), handed exactly once and in order to a
//! consumer over a single-slot rendezvous channel, and dispatched by a
//! small command classifier.  Transport faults are absorbed with a
//! fixed backoff and never corrupt the framing state.

pub mod channel;
pub mod pipeline;
pub mod dispatch;
pub mod frame;
pub mod init;
pub mod led;
pub mod receiver;
pub mod text;

use vstd::prelude::*;

verus! {

/// Capacity of the frame buffer: the longest undelimited run of bytes
/// that can accumulate before an overflow flush.
pub const FRAME_CAPACITY: usize = 64;

/// Sentinel byte value that terminates a frame.
pub const DELIMITER: u8 = 0;

} // verus!
