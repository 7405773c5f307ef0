//! The receiver's decision step: what to do with the outcome of one
//! transport read.
//!
//! The surrounding task loop performs the read, hands the outcome in
//! as a plain value, and then carries out the directive: deliver each
//! completed frame through the channel, or wait out the backoff delay
//! and retry.  A fault never terminates the task and never touches
//! the framing state.

use vstd::prelude::*;

use crate::frame::FrameAccumulator;
use crate::frame::run_emits;
use crate::frame::run_pending;
use crate::frame::views_of;

verus! {

/// How long the receiver waits after a transport fault before it
/// retries, in milliseconds.
pub const BACKOFF_MS: u64 = 100;

/// The outcome of one transport read, as the task loop hands it in: a
/// burst of bytes (a single-byte read is a burst of one), or a fault.
pub enum ReadOutcome {
    Data(Vec<u8>),
    Fault,
}

/// What the task loop must do next.
pub enum ReceiverDirective {
    /// Deliver these completed frames through the channel, in order.
    Deliver(Vec<Vec<u8>>),
    /// Wait this many milliseconds, then read again.
    Backoff(u64),
}

/// Decision after one transport write, used by whichever task writes
/// back: a fault costs the fixed backoff before the next attempt, a
/// success costs nothing, and neither ends the task.
pub fn on_write_outcome(ok: bool) -> (r: Option<u64>)
    ensures
        ok ==> r is None,
        !ok ==> r == Some(BACKOFF_MS),
{
    if ok {
        None
    } else {
        Some(BACKOFF_MS)
    }
}

impl FrameAccumulator {
    /// Drive the accumulator with one read outcome.  A burst feeds
    /// every byte in order and yields the completed frames to
    /// deliver; a fault leaves the pending bytes untouched and yields
    /// the fixed backoff.
    pub fn on_read_outcome(&mut self, outcome: &ReadOutcome) -> (d: ReceiverDirective)
        requires
            old(self).wf(),
        ensures
            final(self).wf(),
            match outcome {
                ReadOutcome::Data(bytes) => {
                    &&& final(self).pending() == run_pending(old(self).pending(), bytes@)
                    &&& d matches ReceiverDirective::Deliver(frames) && views_of(frames@)
                        == run_emits(old(self).pending(), bytes@)
                },
                ReadOutcome::Fault => {
                    &&& final(self).pending() == old(self).pending()
                    &&& d matches ReceiverDirective::Backoff(ms) && ms == BACKOFF_MS
                },
            },
    {
        match outcome {
            ReadOutcome::Data(bytes) => {
                let frames = self.push_bytes(bytes.as_slice());
                ReceiverDirective::Deliver(frames)
            },
            ReadOutcome::Fault => ReceiverDirective::Backoff(BACKOFF_MS),
        }
    }
}

} // verus!
