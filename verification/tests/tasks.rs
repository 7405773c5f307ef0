use framepipe::channel::RendezvousSlot;
use framepipe::dispatch::handle_frame;
use framepipe::dispatch::Command;
use framepipe::channel::SendOutcome;
use framepipe::frame::FrameAccumulator;
use framepipe::init::InitCell;
use framepipe::led::ButtonEvent;
use framepipe::led::ButtonTracker;
use framepipe::led::LedMode;
use framepipe::receiver::on_write_outcome;
use framepipe::receiver::ReadOutcome;
use framepipe::receiver::ReceiverDirective;
use framepipe::receiver::BACKOFF_MS;

#[test]
fn slot_hands_over_in_order() {
    let mut slot = RendezvousSlot::new();
    assert!(!slot.is_occupied());
    assert_eq!(slot.try_recv(), None);
    match slot.try_send(b"first".to_vec()) {
        SendOutcome::Accepted => {}
        SendOutcome::WouldBlock(_) => panic!("an empty slot must accept"),
    }
    assert_eq!(slot.try_recv(), Some(b"first".to_vec()));
    match slot.try_send(b"second".to_vec()) {
        SendOutcome::Accepted => {}
        SendOutcome::WouldBlock(_) => panic!("a drained slot must accept"),
    }
    assert_eq!(slot.try_recv(), Some(b"second".to_vec()));
    assert_eq!(slot.try_recv(), None);
}

#[test]
fn second_send_blocks_until_drained() {
    // With the consumer never receiving, the second frame is refused
    // and comes back untouched, and the first stays in the slot.
    let mut slot = RendezvousSlot::new();
    match slot.try_send(b"first".to_vec()) {
        SendOutcome::Accepted => {}
        SendOutcome::WouldBlock(_) => panic!("an empty slot must accept"),
    }
    match slot.try_send(b"second".to_vec()) {
        SendOutcome::Accepted => panic!("an occupied slot must refuse"),
        SendOutcome::WouldBlock(back) => assert_eq!(back, b"second".to_vec()),
    }
    assert!(slot.is_occupied());
    assert_eq!(slot.try_recv(), Some(b"first".to_vec()));
}

#[test]
fn faults_back_off_and_preserve_framing_state() {
    // Three consecutive read faults: each costs the configured
    // backoff and none touches the partially assembled frame; the
    // fourth read succeeds and framing resumes where it left off.
    let mut acc = FrameAccumulator::new();
    match acc.on_read_outcome(&ReadOutcome::Data(b"par".to_vec())) {
        ReceiverDirective::Deliver(frames) => assert_eq!(frames.len(), 0),
        ReceiverDirective::Backoff(_) => panic!("data must not back off"),
    }
    assert_eq!(acc.pending_len(), 3);
    for _ in 0..3 {
        match acc.on_read_outcome(&ReadOutcome::Fault) {
            ReceiverDirective::Deliver(_) => panic!("a fault delivers nothing"),
            ReceiverDirective::Backoff(ms) => assert_eq!(ms, BACKOFF_MS),
        }
        assert_eq!(acc.pending_len(), 3);
    }
    match acc.on_read_outcome(&ReadOutcome::Data(b"tial\0".to_vec())) {
        ReceiverDirective::Deliver(frames) => {
            assert_eq!(frames, vec![b"partial".to_vec()]);
        }
        ReceiverDirective::Backoff(_) => panic!("data must not back off"),
    }
    assert_eq!(acc.pending_len(), 0);
}

#[test]
fn write_faults_back_off_too() {
    assert_eq!(on_write_outcome(true), None);
    assert_eq!(on_write_outcome(false), Some(BACKOFF_MS));
}

#[test]
fn led_mode_cycle() {
    assert_eq!(LedMode::Slow.next(), LedMode::Medium);
    assert_eq!(LedMode::Medium.next(), LedMode::Fast);
    assert_eq!(LedMode::Fast.next(), LedMode::Off);
    assert_eq!(LedMode::Off.next(), LedMode::Slow);
    let mut m = LedMode::Slow;
    for _ in 0..4 {
        m = m.next();
    }
    assert_eq!(m, LedMode::Slow);
}

#[test]
fn led_mode_timing() {
    assert_eq!(LedMode::Slow.duration_ms(), 1000);
    assert_eq!(LedMode::Medium.duration_ms(), 500);
    assert_eq!(LedMode::Fast.duration_ms(), 200);
    assert_eq!(LedMode::Off.duration_ms(), 100);
    assert_eq!(LedMode::Off.blink_interval(), None);
    assert_eq!(LedMode::Fast.blink_interval(), Some(200));
}

#[test]
fn short_press_is_detected() {
    // Pressed at 1000 ms, released at 1200 ms: a debounced short press.
    let mut t = ButtonTracker::new(true, 0);
    assert_eq!(t.on_sample(false, 1000), ButtonEvent::Nothing);
    assert_eq!(t.on_sample(false, 1100), ButtonEvent::Nothing);
    assert_eq!(t.on_sample(true, 1200), ButtonEvent::ShortPress);
}

#[test]
fn long_press_is_not_a_short_press() {
    // Held from 1000 ms to 2500 ms: past the long-press threshold.
    let mut t = ButtonTracker::new(true, 0);
    assert_eq!(t.on_sample(false, 1000), ButtonEvent::Nothing);
    assert_eq!(t.on_sample(true, 2500), ButtonEvent::Nothing);
}

#[test]
fn bounce_is_ignored() {
    // A release arriving within the debounce window of the previous
    // accepted release is ignored.
    let mut t = ButtonTracker::new(true, 0);
    assert_eq!(t.on_sample(false, 1000), ButtonEvent::Nothing);
    assert_eq!(t.on_sample(true, 1100), ButtonEvent::ShortPress);
    assert_eq!(t.on_sample(false, 1110), ButtonEvent::Nothing);
    assert_eq!(t.on_sample(true, 1120), ButtonEvent::Nothing);
}

#[test]
fn init_cell_is_one_shot() {
    let mut cell: InitCell<u32> = InitCell::new();
    assert!(!cell.is_initialized());
    assert_eq!(cell.get(), None);
    assert_eq!(cell.init(7), Ok(()));
    assert!(cell.is_initialized());
    assert_eq!(cell.get(), Some(&7));
    assert_eq!(cell.init(9), Err(9));
    assert_eq!(cell.get(), Some(&7));
}

#[test]
fn pipeline_end_to_end() {
    // Transport bytes through accumulator, slot, and dispatch: two
    // frames, delivered in order, each dispatched independently.
    let mut acc = FrameAccumulator::new();
    let mut slot = RendezvousSlot::new();
    let mut handled: Vec<(Vec<u8>, Command)> = Vec::new();

    let frames = acc.push_bytes(b"hello\0world\0");
    for frame in frames {
        match slot.try_send(frame) {
            SendOutcome::Accepted => {}
            SendOutcome::WouldBlock(_) => panic!("consumer keeps up in this schedule"),
        }
        let got = slot.try_recv().expect("a frame was just sent");
        let (c, _resp) = handle_frame(&got);
        handled.push((got, c));
    }
    assert_eq!(
        handled,
        vec![
            (b"hello".to_vec(), Command::Greet),
            (b"world".to_vec(), Command::Fallback),
        ]
    );
}
