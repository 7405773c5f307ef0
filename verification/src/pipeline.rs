//! Delivery guarantees of the producer/consumer handoff.
//!
//! Control transfers between the receiver and the consumer only at
//! suspension points, so a whole schedule is a sequence of atomic
//! steps.  Two transition systems are modelled here, one per channel
//! variant: the by-value channel, whose single slot carries the frame
//! bytes themselves, and the by-reference variant, whose slot carries
//! only a length while the frame bytes sit in a shared buffer guarded
//! by a lock.  For every admissible schedule of either system, each
//! frame reaches the consumer exactly once, in emission order, with
//! its bytes intact; and a producer with a completed frame is blocked
//! exactly while the previous frame is still undelivered.

use vstd::prelude::*;

use crate::FRAME_CAPACITY;
use crate::frame::run_emits;
use crate::frame::run_pending;
use crate::frame::step_emits;
use crate::frame::step_pending;

verus! {

/// The frames an occupied slot holds: none or one.
pub open spec fn slot_frames(slot: Option<Seq<u8>>) -> Seq<Seq<u8>> {
    match slot {
        Some(f) => seq![f],
        None => seq![],
    }
}

/// State of the by-value pipeline: the receiver's pending bytes, the
/// channel slot, and the frames the consumer has taken so far.
pub struct ValueState {
    pub pending: Seq<u8>,
    pub slot: Option<Seq<u8>>,
    pub delivered: Seq<Seq<u8>>,
}

/// The by-value pipeline at startup: nothing pending, slot free,
/// nothing delivered.
pub open spec fn value_init() -> ValueState {
    ValueState { pending: Seq::empty(), slot: None, delivered: Seq::empty() }
}

/// One atomic step of the by-value pipeline.
pub enum ValueStep {
    /// The receiver takes one byte from the transport, feeds the
    /// accumulator, and sends any completed frame.
    Recv(u8),
    /// The consumer drains the slot.
    Take,
}

/// Whether a step may run in state `s`.  A byte that completes a
/// frame can only be consumed when the slot is free: with the slot
/// occupied the receiver's send suspends, and the receiver makes no
/// progress until the consumer drains the slot.
pub open spec fn value_enabled(s: ValueState, st: ValueStep) -> bool {
    match st {
        ValueStep::Recv(b) => step_emits(s.pending, b).len() == 0 || s.slot is None,
        ValueStep::Take => s.slot is Some,
    }
}

/// The state after one step.
pub open spec fn value_apply(s: ValueState, st: ValueStep) -> ValueState {
    match st {
        ValueStep::Recv(b) => ValueState {
            pending: step_pending(s.pending, b),
            slot: if step_emits(s.pending, b).len() > 0 {
                Some(step_emits(s.pending, b)[0])
            } else {
                s.slot
            },
            delivered: s.delivered,
        },
        ValueStep::Take => ValueState {
            pending: s.pending,
            slot: None,
            delivered: s.delivered + slot_frames(s.slot),
        },
    }
}

/// Whether every step of the schedule is enabled when its turn comes.
pub open spec fn value_trace_valid(s: ValueState, steps: Seq<ValueStep>) -> bool
    decreases steps.len(),
{
    steps.len() == 0 || (value_enabled(s, steps[0]) && value_trace_valid(
        value_apply(s, steps[0]),
        steps.drop_first(),
    ))
}

/// The state a schedule ends in.
pub open spec fn value_trace_run(s: ValueState, steps: Seq<ValueStep>) -> ValueState
    decreases steps.len(),
{
    if steps.len() == 0 {
        s
    } else {
        value_trace_run(value_apply(s, steps[0]), steps.drop_first())
    }
}

/// The bytes a schedule reads from the transport, in order.
pub open spec fn trace_input(steps: Seq<ValueStep>) -> Seq<u8>
    decreases steps.len(),
{
    if steps.len() == 0 {
        Seq::empty()
    } else {
        (match steps[0] {
            ValueStep::Recv(b) => seq![b],
            ValueStep::Take => seq![],
        }) + trace_input(steps.drop_first())
    }
}

/// Along any admissible schedule, the frames delivered so far plus
/// the frame in flight are exactly the frames the framing model emits
/// for the bytes read so far, and the pending bytes match the model
/// too: nothing is lost, duplicated, or reordered anywhere between
/// the transport and the consumer.
pub proof fn lemma_value_handoff(s: ValueState, steps: Seq<ValueStep>)
    requires
        value_trace_valid(s, steps),
    ensures
        value_trace_run(s, steps).delivered + slot_frames(value_trace_run(s, steps).slot)
            == (s.delivered + slot_frames(s.slot)) + run_emits(s.pending, trace_input(steps)),
        value_trace_run(s, steps).pending == run_pending(s.pending, trace_input(steps)),
    decreases steps.len(),
{
    let fin = value_trace_run(s, steps);
    if steps.len() == 0 {
        assert(fin.delivered + slot_frames(fin.slot) =~= (s.delivered + slot_frames(s.slot))
            + run_emits(s.pending, trace_input(steps)));
    } else {
        let st = steps[0];
        let rest = steps.drop_first();
        let s2 = value_apply(s, st);
        lemma_value_handoff(s2, rest);
        match st {
            ValueStep::Recv(b) => {
                assert(trace_input(steps) == seq![b] + trace_input(rest));
                assert(trace_input(steps)[0] == b);
                assert(trace_input(steps).drop_first() =~= trace_input(rest));
                assert(run_emits(s.pending, trace_input(steps)) == step_emits(s.pending, b)
                    + run_emits(s2.pending, trace_input(rest)));
                assert(run_pending(s.pending, trace_input(steps)) == run_pending(
                    s2.pending,
                    trace_input(rest),
                ));
                if step_emits(s.pending, b).len() > 0 {
                    assert(s.slot is None);
                    assert(step_emits(s.pending, b) =~= seq![step_emits(s.pending, b)[0]]);
                    assert(s2.delivered + slot_frames(s2.slot) =~= (s.delivered + slot_frames(
                        s.slot,
                    )) + step_emits(s.pending, b));
                } else {
                    assert(step_emits(s.pending, b) =~= Seq::<Seq<u8>>::empty());
                    assert(s2.delivered + slot_frames(s2.slot) =~= (s.delivered + slot_frames(
                        s.slot,
                    )) + step_emits(s.pending, b));
                }
                assert(fin.delivered + slot_frames(fin.slot) =~= (s.delivered + slot_frames(s.slot))
                    + run_emits(s.pending, trace_input(steps)));
            },
            ValueStep::Take => {
                assert(trace_input(steps) =~= trace_input(rest));
                assert(s2.delivered + slot_frames(s2.slot) =~= (s.delivered + slot_frames(s.slot)));
                assert(fin.delivered + slot_frames(fin.slot) =~= (s.delivered + slot_frames(s.slot))
                    + run_emits(s.pending, trace_input(steps)));
            },
        }
    }
}

/// Exactly-once, in-order delivery over the by-value channel: after
/// any admissible schedule, what the consumer has taken is precisely
/// the first `delivered.len()` frames the input bytes produce, and at
/// most one further frame is in flight in the slot.
pub proof fn lemma_value_exactly_once(steps: Seq<ValueStep>)
    requires
        value_trace_valid(value_init(), steps),
    ensures
        ({
            let fin = value_trace_run(value_init(), steps);
            let frames = run_emits(Seq::empty(), trace_input(steps));
            &&& fin.delivered + slot_frames(fin.slot) == frames
            &&& fin.delivered == frames.take(fin.delivered.len() as int)
        }),
{
    lemma_value_handoff(value_init(), steps);
    let fin = value_trace_run(value_init(), steps);
    let frames = run_emits(Seq::empty(), trace_input(steps));
    assert(value_init().delivered + slot_frames(value_init().slot) =~= Seq::<Seq<u8>>::empty());
    assert((value_init().delivered + slot_frames(value_init().slot)) + frames =~= frames);
    assert(fin.delivered == frames.take(fin.delivered.len() as int)) by {
        assert(fin.delivered + slot_frames(fin.slot) == frames);
        assert(fin.delivered =~= frames.take(fin.delivered.len() as int));
    }
}

/// A receiver holding a completed frame is blocked exactly while the
/// slot is occupied: the byte that would complete the next frame is
/// not consumable, and nothing of the state moves until the consumer
/// drains the slot.
pub proof fn lemma_send_blocks_when_slot_full(s: ValueState, b: u8)
    requires
        s.slot is Some,
        step_emits(s.pending, b).len() > 0,
    ensures
        !value_enabled(s, ValueStep::Recv(b)),
{
}

/// Whether the consumer never drains the slot in this schedule.
pub open spec fn consumer_silent(steps: Seq<ValueStep>) -> bool {
    forall|i: int| 0 <= i < steps.len() ==> !(#[trigger] steps[i] is Take)
}

proof fn lemma_silent_delivers_nothing(s: ValueState, steps: Seq<ValueStep>)
    requires
        value_trace_valid(s, steps),
        consumer_silent(steps),
    ensures
        value_trace_run(s, steps).delivered == s.delivered,
    decreases steps.len(),
{
    if steps.len() > 0 {
        assert(steps[0] == steps[0]);
        assert(consumer_silent(steps.drop_first())) by {
            assert(forall|i: int|
                0 <= i < steps.drop_first().len() ==> #[trigger] steps.drop_first()[i] == steps[i
                    + 1]);
        }
        lemma_silent_delivers_nothing(value_apply(s, steps[0]), steps.drop_first());
    }
}

/// If the consumer never calls receive, the receiver suspends at its
/// second completed frame: the input can never produce more than one
/// frame, nothing is delivered, and the first frame sits intact in
/// the slot rather than being lost or overwritten.
pub proof fn lemma_starved_consumer_blocks_receiver(steps: Seq<ValueStep>)
    requires
        value_trace_valid(value_init(), steps),
        consumer_silent(steps),
    ensures
        ({
            let fin = value_trace_run(value_init(), steps);
            let frames = run_emits(Seq::empty(), trace_input(steps));
            &&& frames.len() <= 1
            &&& fin.delivered == Seq::<Seq<u8>>::empty()
            &&& frames.len() == 1 ==> fin.slot == Some(frames[0])
        }),
{
    lemma_value_exactly_once(steps);
    lemma_silent_delivers_nothing(value_init(), steps);
    let fin = value_trace_run(value_init(), steps);
    let frames = run_emits(Seq::empty(), trace_input(steps));
    assert(fin.delivered + slot_frames(fin.slot) == frames);
    assert(fin.delivered =~= Seq::<Seq<u8>>::empty());
    assert(frames =~= slot_frames(fin.slot));
    if frames.len() == 1 {
        assert(fin.slot is Some);
        assert(slot_frames(fin.slot)[0] == fin.slot->0);
    }
}

/// What the consumer of the by-reference variant is doing: waiting at
/// the channel, or holding a length it has yet to finish reading out
/// of the shared buffer.
pub enum ConsumerPhase {
    Idle,
    Busy(nat),
}

/// State of the by-reference pipeline: the shared buffer's contents,
/// the length slot, the consumer's phase, the frames published into
/// the buffer so far, and the frames the consumer has read out.
pub struct SharedState {
    pub buffer: Seq<u8>,
    pub len_slot: Option<nat>,
    pub phase: ConsumerPhase,
    pub produced: Seq<Seq<u8>>,
    pub delivered: Seq<Seq<u8>>,
}

/// The by-reference pipeline at startup: a zeroed buffer, slot free,
/// consumer waiting, no history.
pub open spec fn shared_init() -> SharedState {
    SharedState {
        buffer: Seq::new(FRAME_CAPACITY as nat, |i: int| 0u8),
        len_slot: None,
        phase: ConsumerPhase::Idle,
        produced: Seq::empty(),
        delivered: Seq::empty(),
    }
}

/// One atomic step of the by-reference pipeline.
pub enum SharedStep {
    /// The receiver, holding the lock, writes one whole burst into
    /// the front of the buffer, releases the lock, and (for a
    /// nonempty burst) sends its length.
    Fill(Seq<u8>),
    /// The consumer takes the pending length from the channel.
    TakeLen,
    /// The consumer, holding the lock, reads that many bytes from the
    /// front of the buffer and releases the lock.
    ReadOut,
}

/// Whether a step may run in state `s`.  The receiver may touch the
/// buffer only when the previous cycle is fully over: no length in
/// the slot and the consumer not holding one — the serialization
/// discipline the single-slot channel enforces on the lock protocol.
pub open spec fn shared_enabled(s: SharedState, st: SharedStep) -> bool {
    match st {
        SharedStep::Fill(burst) => burst.len() <= FRAME_CAPACITY && s.len_slot is None
            && s.phase is Idle,
        SharedStep::TakeLen => s.len_slot is Some && s.phase is Idle,
        SharedStep::ReadOut => s.phase is Busy,
    }
}

/// The state after one step.
pub open spec fn shared_apply(s: SharedState, st: SharedStep) -> SharedState {
    match st {
        SharedStep::Fill(burst) => SharedState {
            buffer: burst + s.buffer.skip(burst.len() as int),
            len_slot: if burst.len() > 0 {
                Some(burst.len())
            } else {
                None
            },
            phase: s.phase,
            produced: if burst.len() > 0 {
                s.produced.push(burst)
            } else {
                s.produced
            },
            delivered: s.delivered,
        },
        SharedStep::TakeLen => SharedState {
            buffer: s.buffer,
            len_slot: None,
            phase: ConsumerPhase::Busy(s.len_slot->0),
            produced: s.produced,
            delivered: s.delivered,
        },
        SharedStep::ReadOut => SharedState {
            buffer: s.buffer,
            len_slot: s.len_slot,
            phase: ConsumerPhase::Idle,
            produced: s.produced,
            delivered: s.delivered.push(s.buffer.take(s.phase->0 as int)),
        },
    }
}

/// The inductive invariant of the by-reference pipeline: at most one
/// frame is outstanding; while one is, the front of the shared
/// buffer still holds exactly its bytes; and everything read out so
/// far is a prefix of what was published.
pub open spec fn shared_inv(s: SharedState) -> bool {
    &&& s.buffer.len() == FRAME_CAPACITY
    &&& s.delivered == s.produced.take(s.delivered.len() as int)
    &&& match s.len_slot {
        Some(n) => s.phase is Idle && s.produced.len() == s.delivered.len() + 1 && n
            == s.produced.last().len() && 0 < n <= FRAME_CAPACITY && s.buffer.take(n as int)
            == s.produced.last(),
        None => match s.phase {
            ConsumerPhase::Busy(n) => s.produced.len() == s.delivered.len() + 1 && n
                == s.produced.last().len() && n <= FRAME_CAPACITY && s.buffer.take(n as int)
                == s.produced.last(),
            ConsumerPhase::Idle => s.produced == s.delivered,
        },
    }
}

/// The startup state satisfies the invariant.
pub proof fn lemma_shared_init_inv()
    ensures
        shared_inv(shared_init()),
{
    assert(shared_init().delivered =~= shared_init().produced.take(0));
}

/// Every enabled step preserves the invariant; in particular the
/// consumer's read-out returns exactly the published frame's bytes,
/// because the receiver cannot have touched the buffer in between.
pub proof fn lemma_shared_step_preserves(s: SharedState, st: SharedStep)
    requires
        shared_inv(s),
        shared_enabled(s, st),
    ensures
        shared_inv(shared_apply(s, st)),
{
    let s2 = shared_apply(s, st);
    match st {
        SharedStep::Fill(burst) => {
            assert(s2.buffer.len() == FRAME_CAPACITY);
            if burst.len() > 0 {
                assert(s2.produced.last() == burst);
                assert(s2.buffer.take(burst.len() as int) =~= burst);
                assert(s2.delivered =~= s2.produced.take(s2.delivered.len() as int));
            }
        },
        SharedStep::TakeLen => {
        },
        SharedStep::ReadOut => {
            let n = s.phase->0;
            assert(s.buffer.take(n as int) == s.produced.last());
            assert(s2.delivered =~= s2.produced.take(s2.delivered.len() as int));
            assert(s2.produced == s2.delivered);
        },
    }
}

/// Whether every step of the schedule is enabled when its turn comes.
pub open spec fn shared_trace_valid(s: SharedState, steps: Seq<SharedStep>) -> bool
    decreases steps.len(),
{
    steps.len() == 0 || (shared_enabled(s, steps[0]) && shared_trace_valid(
        shared_apply(s, steps[0]),
        steps.drop_first(),
    ))
}

/// The state a schedule ends in.
pub open spec fn shared_trace_run(s: SharedState, steps: Seq<SharedStep>) -> SharedState
    decreases steps.len(),
{
    if steps.len() == 0 {
        s
    } else {
        shared_trace_run(shared_apply(s, steps[0]), steps.drop_first())
    }
}

proof fn lemma_shared_trace_preserves(s: SharedState, steps: Seq<SharedStep>)
    requires
        shared_inv(s),
        shared_trace_valid(s, steps),
    ensures
        shared_inv(shared_trace_run(s, steps)),
    decreases steps.len(),
{
    if steps.len() > 0 {
        lemma_shared_step_preserves(s, steps[0]);
        lemma_shared_trace_preserves(shared_apply(s, steps[0]), steps.drop_first());
    }
}

/// Exactly-once, in-order delivery over the by-reference channel:
/// after any admissible schedule, the frames the consumer has read
/// out of the shared buffer are precisely the first frames published
/// into it, byte for byte, with at most one more still in flight.
pub proof fn lemma_shared_exactly_once(steps: Seq<SharedStep>)
    requires
        shared_trace_valid(shared_init(), steps),
    ensures
        ({
            let fin = shared_trace_run(shared_init(), steps);
            &&& fin.delivered == fin.produced.take(fin.delivered.len() as int)
            &&& fin.delivered.len() <= fin.produced.len() <= fin.delivered.len() + 1
        }),
{
    lemma_shared_init_inv();
    lemma_shared_trace_preserves(shared_init(), steps);
    let fin = shared_trace_run(shared_init(), steps);
    assert(fin.delivered.len() <= fin.produced.len()) by {
        assert(fin.delivered == fin.produced.take(fin.delivered.len() as int));
    }
}

/// While a published frame is still undelivered, the receiver cannot
/// write the shared buffer at all: any fill step is disabled until
/// the consumer has taken the length and finished its read.
pub proof fn lemma_shared_fill_blocked(s: SharedState, burst: Seq<u8>)
    requires
        shared_inv(s),
        s.produced.len() > s.delivered.len(),
    ensures
        !shared_enabled(s, SharedStep::Fill(burst)),
{
}

} // verus!
