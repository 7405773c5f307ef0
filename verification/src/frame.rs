//! Frame accumulation: turning a byte stream into delimited frames.
//!
//! The accumulator owns a bounded buffer of pending bytes.  A
//! delimiter byte completes the pending bytes as a frame (empty frames
//! are suppressed); a payload byte arriving with the buffer full
//! flushes the buffer as a frame and carries the byte over as the
//! start of the next frame, so no byte is ever dropped.

use vstd::prelude::*;

use crate::DELIMITER;
use crate::FRAME_CAPACITY;

verus! {

/// Frames emitted by feeding one byte to an accumulator whose pending
/// bytes are `pending`: none, or exactly one.
pub open spec fn step_emits(pending: Seq<u8>, byte: u8) -> Seq<Seq<u8>> {
    if byte == DELIMITER {
        if pending.len() > 0 {
            seq![pending]
        } else {
            seq![]
        }
    } else {
        if pending.len() < FRAME_CAPACITY {
            seq![]
        } else {
            seq![pending]
        }
    }
}

/// Pending bytes after feeding one byte to an accumulator whose
/// pending bytes are `pending`.
pub open spec fn step_pending(pending: Seq<u8>, byte: u8) -> Seq<u8> {
    if byte == DELIMITER {
        Seq::empty()
    } else {
        if pending.len() < FRAME_CAPACITY {
            pending.push(byte)
        } else {
            seq![byte]
        }
    }
}

/// All frames emitted by feeding `input`, in order, starting from
/// pending bytes `pending`.
pub open spec fn run_emits(pending: Seq<u8>, input: Seq<u8>) -> Seq<Seq<u8>>
    decreases input.len(),
{
    if input.len() == 0 {
        seq![]
    } else {
        step_emits(pending, input[0]) + run_emits(step_pending(pending, input[0]), input.drop_first())
    }
}

/// Pending bytes left after feeding `input`, starting from pending
/// bytes `pending`.
pub open spec fn run_pending(pending: Seq<u8>, input: Seq<u8>) -> Seq<u8>
    decreases input.len(),
{
    if input.len() == 0 {
        pending
    } else {
        run_pending(step_pending(pending, input[0]), input.drop_first())
    }
}

/// The views of a vector of frames, as a sequence of byte sequences.
pub open spec fn views_of(frames: Seq<Vec<u8>>) -> Seq<Seq<u8>> {
    frames.map_values(|f: Vec<u8>| f@)
}

/// Feeding `prefix` and then one more byte emits the frames of the
/// prefix followed by whatever the last byte completes, and leaves the
/// last byte's pending bytes.
pub proof fn lemma_run_snoc(pending: Seq<u8>, prefix: Seq<u8>, byte: u8)
    ensures
        run_emits(pending, prefix.push(byte)) == run_emits(pending, prefix) + step_emits(
            run_pending(pending, prefix),
            byte,
        ),
        run_pending(pending, prefix.push(byte)) == step_pending(run_pending(pending, prefix), byte),
    decreases prefix.len(),
{
    let pb = prefix.push(byte);
    if prefix.len() == 0 {
        assert(pb[0] == byte);
        assert(pb.drop_first() =~= Seq::<u8>::empty());
        assert(run_emits(step_pending(pending, byte), pb.drop_first()) =~= Seq::<Seq<u8>>::empty());
        assert(run_emits(pending, pb) =~= step_emits(pending, byte));
        assert(run_emits(pending, prefix) =~= Seq::<Seq<u8>>::empty());
        assert(run_emits(pending, prefix) + step_emits(run_pending(pending, prefix), byte)
            =~= step_emits(pending, byte));
        assert(run_pending(pending, pb) == run_pending(step_pending(pending, byte), pb.drop_first()));
        assert(run_pending(step_pending(pending, byte), pb.drop_first()) == step_pending(
            pending,
            byte,
        ));
    } else {
        let p2 = step_pending(pending, prefix[0]);
        assert(pb[0] == prefix[0]);
        assert(pb.len() > 0);
        assert(pb.drop_first() =~= prefix.drop_first().push(byte));
        lemma_run_snoc(p2, prefix.drop_first(), byte);
        assert(run_emits(pending, pb) == step_emits(pending, prefix[0]) + run_emits(
            p2,
            prefix.drop_first().push(byte),
        ));
        assert(run_pending(pending, pb) == run_pending(p2, prefix.drop_first().push(byte)));
        assert(run_pending(pending, prefix) == run_pending(p2, prefix.drop_first()));
        assert(run_emits(pending, prefix) == step_emits(pending, prefix[0]) + run_emits(
            p2,
            prefix.drop_first(),
        ));
        assert(run_emits(pending, pb) =~= run_emits(pending, prefix) + step_emits(
            run_pending(pending, prefix),
            byte,
        ));
    }
}

/// Framing does not see burst boundaries: feeding two bursts one
/// after the other emits exactly the frames of their concatenation,
/// so a transport that delivers whole bursts and one that delivers a
/// byte per suspension drive the accumulator identically.
pub proof fn lemma_run_append(pending: Seq<u8>, a: Seq<u8>, b: Seq<u8>)
    ensures
        run_emits(pending, a + b) == run_emits(pending, a) + run_emits(run_pending(pending, a), b),
        run_pending(pending, a + b) == run_pending(run_pending(pending, a), b),
    decreases a.len(),
{
    if a.len() == 0 {
        assert(a + b =~= b);
        assert(run_emits(pending, a) + run_emits(run_pending(pending, a), b) =~= run_emits(
            pending,
            b,
        ));
    } else {
        let p2 = step_pending(pending, a[0]);
        assert((a + b)[0] == a[0]);
        assert((a + b).drop_first() =~= a.drop_first() + b);
        lemma_run_append(p2, a.drop_first(), b);
        assert(run_emits(pending, a + b) == step_emits(pending, a[0]) + run_emits(
            p2,
            a.drop_first() + b,
        ));
        assert(run_emits(pending, a) == step_emits(pending, a[0]) + run_emits(p2, a.drop_first()));
        assert(run_emits(pending, a + b) =~= run_emits(pending, a) + run_emits(
            run_pending(pending, a),
            b,
        ));
    }
}

/// All frames joined back together, in emission order.
pub open spec fn concat_frames(frames: Seq<Seq<u8>>) -> Seq<u8>
    decreases frames.len(),
{
    if frames.len() == 0 {
        Seq::empty()
    } else {
        frames[0] + concat_frames(frames.drop_first())
    }
}

/// The input with every delimiter byte removed.
pub open spec fn strip_delimiters(input: Seq<u8>) -> Seq<u8>
    decreases input.len(),
{
    if input.len() == 0 {
        Seq::empty()
    } else if input[0] == DELIMITER {
        strip_delimiters(input.drop_first())
    } else {
        seq![input[0]] + strip_delimiters(input.drop_first())
    }
}

proof fn lemma_concat_cons(f: Seq<u8>, rest: Seq<Seq<u8>>)
    ensures
        concat_frames(seq![f] + rest) == f + concat_frames(rest),
{
    let s = seq![f] + rest;
    assert(s[0] == f);
    assert(s.drop_first() =~= rest);
}

/// No byte is lost and none is invented: the emitted frames, joined in
/// order, followed by the bytes still pending, are exactly the prior
/// pending bytes followed by the input with its delimiters removed.
/// (Empty frames are suppressed, so suppression changes nothing here.)
pub proof fn lemma_byte_conservation(pending: Seq<u8>, input: Seq<u8>)
    ensures
        concat_frames(run_emits(pending, input)) + run_pending(pending, input) == pending
            + strip_delimiters(input),
    decreases input.len(),
{
    if input.len() == 0 {
        assert(concat_frames(run_emits(pending, input)) + run_pending(pending, input) =~= pending
            + strip_delimiters(input));
    } else {
        let b = input[0];
        let rest = input.drop_first();
        let p2 = step_pending(pending, b);
        let e = step_emits(pending, b);
        lemma_byte_conservation(p2, rest);
        assert(run_emits(pending, input) == e + run_emits(p2, rest));
        assert(run_pending(pending, input) == run_pending(p2, rest));
        if e.len() > 0 {
            lemma_concat_cons(pending, run_emits(p2, rest));
            assert(e + run_emits(p2, rest) =~= seq![pending] + run_emits(p2, rest));
        } else {
            assert(e + run_emits(p2, rest) =~= run_emits(p2, rest));
        }
        assert(concat_frames(run_emits(pending, input)) + run_pending(pending, input) =~= pending
            + strip_delimiters(input));
    }
}

/// Every emitted frame is nonempty and at most `FRAME_CAPACITY` bytes,
/// and the pending bytes stay within capacity.
pub proof fn lemma_frame_bounds(pending: Seq<u8>, input: Seq<u8>)
    requires
        pending.len() <= FRAME_CAPACITY,
    ensures
        run_pending(pending, input).len() <= FRAME_CAPACITY,
        forall|i: int|
            0 <= i < run_emits(pending, input).len() ==> 1 <= (
            #[trigger] run_emits(pending, input)[i]).len() <= FRAME_CAPACITY,
    decreases input.len(),
{
    if input.len() > 0 {
        let b = input[0];
        let rest = input.drop_first();
        let p2 = step_pending(pending, b);
        let e = step_emits(pending, b);
        lemma_frame_bounds(p2, rest);
        assert(run_emits(pending, input) == e + run_emits(p2, rest));
        assert forall|i: int| 0 <= i < run_emits(pending, input).len() implies 1 <= (
        #[trigger] run_emits(pending, input)[i]).len() <= FRAME_CAPACITY by {
            if i < e.len() {
                assert(run_emits(pending, input)[i] == pending);
            } else {
                assert(run_emits(pending, input)[i] == run_emits(p2, rest)[i - e.len()]);
            }
        }
    }
}

/// With no delimiter anywhere in the input, frames are forced out by
/// overflow alone: every emitted frame is exactly `FRAME_CAPACITY`
/// bytes, the frames plus the residue account for every input byte,
/// and a nonempty input always leaves a nonempty residue pending.
pub proof fn lemma_no_delimiter_cadence(pending: Seq<u8>, input: Seq<u8>)
    requires
        pending.len() <= FRAME_CAPACITY,
        forall|i: int| 0 <= i < input.len() ==> input[i] != DELIMITER,
    ensures
        forall|i: int|
            0 <= i < run_emits(pending, input).len() ==> (
            #[trigger] run_emits(pending, input)[i]).len() == FRAME_CAPACITY,
        run_pending(pending, input).len() + run_emits(pending, input).len() * FRAME_CAPACITY
            == pending.len() + input.len(),
        run_pending(pending, input).len() <= FRAME_CAPACITY,
        input.len() > 0 ==> run_pending(pending, input).len() > 0,
    decreases input.len(),
{
    if input.len() > 0 {
        let b = input[0];
        let rest = input.drop_first();
        let p2 = step_pending(pending, b);
        let e = step_emits(pending, b);
        assert(b != DELIMITER);
        assert(forall|i: int| 0 <= i < rest.len() ==> rest[i] != DELIMITER);
        lemma_no_delimiter_cadence(p2, rest);
        assert(run_emits(pending, input) == e + run_emits(p2, rest));
        assert(run_pending(pending, input) == run_pending(p2, rest));
        assert forall|i: int| 0 <= i < run_emits(pending, input).len() implies (
        #[trigger] run_emits(pending, input)[i]).len() == FRAME_CAPACITY by {
            if i < e.len() {
                assert(run_emits(pending, input)[i] == pending);
            } else {
                assert(run_emits(pending, input)[i] == run_emits(p2, rest)[i - e.len()]);
            }
        }
        assert(run_emits(pending, input).len() == e.len() + run_emits(p2, rest).len());
        if pending.len() < FRAME_CAPACITY {
            assert(p2.len() == pending.len() + 1);
        } else {
            assert(e.len() == 1);
            assert(p2.len() == 1);
            assert((run_emits(p2, rest).len() + 1) * FRAME_CAPACITY == run_emits(p2, rest).len()
                * FRAME_CAPACITY + FRAME_CAPACITY) by (nonlinear_arith);
        }
        if rest.len() == 0 {
            assert(run_pending(p2, rest) == p2);
        }
    }
}

/// The count behind the overflow cadence: a delimiter-free input of
/// `n > 0` bytes, fed from an empty buffer, has produced exactly
/// `(n - 1) / FRAME_CAPACITY` frames so far — one per full capacity,
/// except that the byte count on a capacity boundary still sits
/// pending, its flush waiting on the next byte.
pub proof fn lemma_no_delimiter_frame_count(input: Seq<u8>)
    requires
        input.len() > 0,
        forall|i: int| 0 <= i < input.len() ==> input[i] != DELIMITER,
    ensures
        run_emits(Seq::empty(), input).len() == (input.len() - 1) as int / (FRAME_CAPACITY as int),
{
    lemma_no_delimiter_cadence(Seq::empty(), input);
    let frames = run_emits(Seq::<u8>::empty(), input);
    let residue = run_pending(Seq::<u8>::empty(), input);
    assert(residue.len() + frames.len() * FRAME_CAPACITY == input.len());
    vstd::arithmetic::div_mod::lemma_fundamental_div_mod_converse(
        input.len() - 1,
        FRAME_CAPACITY as int,
        frames.len() as int,
        residue.len() - 1,
    );
}

/// Result of feeding one byte to the accumulator.
pub enum FrameEvent {
    /// The byte was absorbed (or an empty frame was suppressed); no
    /// frame is complete.
    Pending,
    /// A delimiter completed the pending bytes as a frame.
    Emit(Vec<u8>),
    /// A payload byte arrived with the buffer full: the buffered bytes
    /// are flushed as a frame and the byte is carried over as the
    /// start of the next frame.
    EmitAndCarry(Vec<u8>, u8),
}

impl FrameEvent {
    /// The frames this event delivers: none, or exactly one.
    pub open spec fn emitted(&self) -> Seq<Seq<u8>> {
        match self {
            FrameEvent::Pending => seq![],
            FrameEvent::Emit(f) => seq![f@],
            FrameEvent::EmitAndCarry(f, _) => seq![f@],
        }
    }
}

/// Accumulates payload bytes until a delimiter or an overflow
/// completes a frame.
pub struct FrameAccumulator {
    buf: Vec<u8>,
}

impl FrameAccumulator {
    /// The bytes accumulated so far toward the next frame.
    pub closed spec fn pending(&self) -> Seq<u8> {
        self.buf@
    }

    /// The buffer never holds more than `FRAME_CAPACITY` bytes.
    pub open spec fn wf(&self) -> bool {
        self.pending().len() <= FRAME_CAPACITY
    }

    /// A fresh accumulator with no pending bytes.
    pub fn new() -> (r: FrameAccumulator)
        ensures
            r.wf(),
            r.pending() == Seq::<u8>::empty(),
    {
        FrameAccumulator { buf: Vec::new() }
    }

    /// How many bytes are pending.
    pub fn pending_len(&self) -> (n: usize)
        ensures
            n == self.pending().len(),
    {
        self.buf.len()
    }

    /// Feed one byte; the returned event matches `step_emits` and the
    /// new pending bytes match `step_pending`.
    pub fn push(&mut self, byte: u8) -> (ev: FrameEvent)
        requires
            old(self).wf(),
        ensures
            final(self).wf(),
            final(self).pending() == step_pending(old(self).pending(), byte),
            ev.emitted() == step_emits(old(self).pending(), byte),
            (ev matches FrameEvent::Emit(f) ==> byte == DELIMITER && f@ == old(self).pending()),
            (ev matches FrameEvent::EmitAndCarry(f, b) ==> byte != DELIMITER && b == byte && f@ == old(
                self,
            ).pending()),
    {
        if byte == DELIMITER {
            if self.buf.len() > 0 {
                let mut flushed: Vec<u8> = Vec::new();
                core::mem::swap(&mut flushed, &mut self.buf);
                FrameEvent::Emit(flushed)
            } else {
                FrameEvent::Pending
            }
        } else {
            if self.buf.len() < FRAME_CAPACITY {
                self.buf.push(byte);
                FrameEvent::Pending
            } else {
                let mut flushed: Vec<u8> = Vec::new();
                core::mem::swap(&mut flushed, &mut self.buf);
                self.buf.push(byte);
                FrameEvent::EmitAndCarry(flushed, byte)
            }
        }
    }

    /// Feed a burst of bytes in order, collecting every completed
    /// frame; the result matches `run_emits` and the new pending bytes
    /// match `run_pending`.  A burst read from the transport and a
    /// byte-at-a-time read thus produce the same frames.
    pub fn push_bytes(&mut self, bytes: &[u8]) -> (frames: Vec<Vec<u8>>)
        requires
            old(self).wf(),
        ensures
            final(self).wf(),
            final(self).pending() == run_pending(old(self).pending(), bytes@),
            views_of(frames@) == run_emits(old(self).pending(), bytes@),
    {
        let mut frames: Vec<Vec<u8>> = Vec::new();
        let mut i: usize = 0;
        proof {
            assert(bytes@.take(0) =~= Seq::<u8>::empty());
            assert(views_of(frames@) =~= run_emits(old(self).pending(), bytes@.take(0)));
        }
        while i < bytes.len()
            invariant
                i <= bytes@.len(),
                self.wf(),
                self.pending() == run_pending(old(self).pending(), bytes@.take(i as int)),
                views_of(frames@) == run_emits(old(self).pending(), bytes@.take(i as int)),
            decreases bytes@.len() - i,
        {
            let ghost prefix = bytes@.take(i as int);
            let byte = bytes[i];
            proof {
                assert(bytes@.take(i + 1) =~= prefix.push(byte));
                lemma_run_snoc(old(self).pending(), prefix, byte);
            }
            let ev = self.push(byte);
            match ev {
                FrameEvent::Pending => {
                    proof {
                        assert(views_of(frames@) =~= run_emits(
                            old(self).pending(),
                            bytes@.take(i + 1),
                        ));
                    }
                },
                FrameEvent::Emit(f) => {
                    frames.push(f);
                    proof {
                        assert(views_of(frames@) =~= run_emits(
                            old(self).pending(),
                            bytes@.take(i + 1),
                        ));
                    }
                },
                FrameEvent::EmitAndCarry(f, _) => {
                    frames.push(f);
                    proof {
                        assert(views_of(frames@) =~= run_emits(
                            old(self).pending(),
                            bytes@.take(i + 1),
                        ));
                    }
                },
            }
            i = i + 1;
        }
        proof {
            assert(bytes@.take(bytes@.len() as int) =~= bytes@);
        }
        frames
    }
}

} // verus!
