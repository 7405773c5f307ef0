use framepipe::frame::FrameAccumulator;
use framepipe::frame::FrameEvent;
use framepipe::DELIMITER;
use framepipe::FRAME_CAPACITY;

fn feed(acc: &mut FrameAccumulator, bytes: &[u8]) -> Vec<Vec<u8>> {
    acc.push_bytes(bytes)
}

#[test]
fn two_delimited_frames() {
    let mut acc = FrameAccumulator::new();
    let frames = feed(&mut acc, b"hello\0world\0");
    assert_eq!(frames.len(), 2);
    assert_eq!(frames[0], b"hello".to_vec());
    assert_eq!(frames[1], b"world".to_vec());
    assert_eq!(acc.pending_len(), 0);
}

#[test]
fn empty_frames_are_suppressed() {
    let mut acc = FrameAccumulator::new();
    let frames = feed(&mut acc, &[0, 0, 0]);
    assert_eq!(frames.len(), 0);
    assert_eq!(acc.pending_len(), 0);
}

#[test]
fn leading_and_double_delimiters() {
    let mut acc = FrameAccumulator::new();
    let frames = feed(&mut acc, b"\0ab\0\0cd\0");
    assert_eq!(frames, vec![b"ab".to_vec(), b"cd".to_vec()]);
}

#[test]
fn overflow_flush_and_carry() {
    // 70 bytes with no delimiter: one overflow flush of 64 bytes, the
    // remaining 6 bytes still accumulating.
    let input: Vec<u8> = (0..70u8).map(|b| b + 1).collect();
    let mut acc = FrameAccumulator::new();
    let frames = feed(&mut acc, &input);
    assert_eq!(frames.len(), 1);
    assert_eq!(frames[0].len(), FRAME_CAPACITY);
    assert_eq!(frames[0], input[..64].to_vec());
    assert_eq!(acc.pending_len(), 6);
    // The carried bytes belong to the next frame.
    let rest = feed(&mut acc, &[DELIMITER]);
    assert_eq!(rest.len(), 1);
    assert_eq!(rest[0], input[64..].to_vec());
}

#[test]
fn overflow_every_capacity_bytes() {
    // 130 delimiter-free bytes: frames complete every 64 bytes, and
    // every byte is accounted for between frames and residue.
    let input: Vec<u8> = (0..130u32).map(|b| (b % 255 + 1) as u8).collect();
    let mut acc = FrameAccumulator::new();
    let frames = feed(&mut acc, &input);
    assert_eq!(frames.len(), 2);
    assert!(frames.iter().all(|f| f.len() == FRAME_CAPACITY));
    let total: usize = frames.iter().map(|f| f.len()).sum::<usize>() + acc.pending_len();
    assert_eq!(total, input.len());
}

#[test]
fn exactly_capacity_then_delimiter() {
    // A frame of exactly 64 bytes closed by a delimiter: emitted by
    // the delimiter, not by overflow, and nothing is pending after.
    let input: Vec<u8> = vec![7u8; FRAME_CAPACITY];
    let mut acc = FrameAccumulator::new();
    let frames = feed(&mut acc, &input);
    assert_eq!(frames.len(), 0);
    assert_eq!(acc.pending_len(), FRAME_CAPACITY);
    let frames = feed(&mut acc, &[DELIMITER]);
    assert_eq!(frames, vec![vec![7u8; FRAME_CAPACITY]]);
    assert_eq!(acc.pending_len(), 0);
}

#[test]
fn capacity_plus_one_splits() {
    // The 65th byte forces the flush and starts the next frame.
    let mut input: Vec<u8> = vec![9u8; FRAME_CAPACITY];
    input.push(10);
    let mut acc = FrameAccumulator::new();
    let frames = feed(&mut acc, &input);
    assert_eq!(frames, vec![vec![9u8; FRAME_CAPACITY]]);
    assert_eq!(acc.pending_len(), 1);
}

#[test]
fn concatenation_restores_input_without_delimiters() {
    // Frames re-joined in emission order, plus the residue, equal the
    // input with delimiters removed.
    let input = b"one\0two\0\0three and a tail without delimiter";
    let mut acc = FrameAccumulator::new();
    let frames = feed(&mut acc, input);
    let mut rejoined: Vec<u8> = Vec::new();
    for f in &frames {
        rejoined.extend_from_slice(f);
    }
    let expected: Vec<u8> = input.iter().copied().filter(|b| *b != DELIMITER).collect();
    let residue_start = expected.len() - acc.pending_len();
    assert_eq!(rejoined, expected[..residue_start].to_vec());
}

#[test]
fn byte_at_a_time_matches_burst() {
    // Feeding byte by byte produces the same frames as one burst.
    let input = b"abcdef\0gh\0";
    let mut burst_acc = FrameAccumulator::new();
    let burst_frames = feed(&mut burst_acc, input);
    let mut single_acc = FrameAccumulator::new();
    let mut single_frames: Vec<Vec<u8>> = Vec::new();
    for b in input.iter() {
        match single_acc.push(*b) {
            FrameEvent::Pending => {}
            FrameEvent::Emit(f) => single_frames.push(f),
            FrameEvent::EmitAndCarry(f, _) => single_frames.push(f),
        }
    }
    assert_eq!(burst_frames, single_frames);
    assert_eq!(burst_acc.pending_len(), single_acc.pending_len());
}

#[test]
fn push_reports_carry_byte() {
    let mut acc = FrameAccumulator::new();
    for _ in 0..FRAME_CAPACITY {
        match acc.push(3) {
            FrameEvent::Pending => {}
            _ => panic!("no frame should complete while filling"),
        }
    }
    match acc.push(4) {
        FrameEvent::EmitAndCarry(f, carried) => {
            assert_eq!(f, vec![3u8; FRAME_CAPACITY]);
            assert_eq!(carried, 4);
        }
        _ => panic!("the byte past capacity must flush and carry"),
    }
    assert_eq!(acc.pending_len(), 1);
}
