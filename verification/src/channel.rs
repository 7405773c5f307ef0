//! A single-slot rendezvous handoff.
//!
//! Capacity is exactly one: at most one undelivered frame is
//! outstanding at any time.  A producer whose frame is refused must
//! suspend and retry; that refusal is the system's only backpressure.
//! The async channel a task loop really suspends on has the same
//! slot discipline; this type gives it to sequential callers and to
//! the proofs.

use vstd::prelude::*;

verus! {

/// What became of an offered frame.
pub enum SendOutcome {
    /// The slot was free; the frame is now the pending item.
    Accepted,
    /// The slot was occupied; the frame comes back untouched and the
    /// producer must suspend until the consumer drains the slot.
    WouldBlock(Vec<u8>),
}

/// A channel of capacity exactly one, carrying a frame by value.
pub struct RendezvousSlot {
    item: Option<Vec<u8>>,
}

impl RendezvousSlot {
    /// The pending item, if one is outstanding.
    pub closed spec fn item_view(&self) -> Option<Seq<u8>> {
        match self.item {
            Some(f) => Some(f@),
            None => None,
        }
    }

    /// An empty slot.
    pub fn new() -> (r: RendezvousSlot)
        ensures
            r.item_view() is None,
    {
        RendezvousSlot { item: None }
    }

    /// Whether an undelivered frame is outstanding.
    pub fn is_occupied(&self) -> (r: bool)
        ensures
            r == (self.item_view() is Some),
    {
        self.item.is_some()
    }

    /// Offer a frame.  It is accepted exactly when the slot is free;
    /// otherwise the slot and the frame are both unchanged.
    pub fn try_send(&mut self, frame: Vec<u8>) -> (r: SendOutcome)
        ensures
            old(self).item_view() is None ==> (r == SendOutcome::Accepted
                && final(self).item_view() == Some(frame@)),
            old(self).item_view() is Some ==> (r matches SendOutcome::WouldBlock(f) && f@ == frame@
                && final(self).item_view() == old(self).item_view()),
    {
        if self.item.is_none() {
            self.item = Some(frame);
            SendOutcome::Accepted
        } else {
            SendOutcome::WouldBlock(frame)
        }
    }

    /// Take the pending frame, if any, leaving the slot free.
    pub fn try_recv(&mut self) -> (r: Option<Vec<u8>>)
        ensures
            final(self).item_view() is None,
            match r {
                Some(f) => old(self).item_view() == Some(f@),
                None => old(self).item_view() is None,
            },
    {
        self.item.take()
    }
}

} // verus!
