use framepipe::dispatch::classify;
use framepipe::dispatch::handle_frame;
use framepipe::dispatch::handler_a;
use framepipe::dispatch::handler_b;
use framepipe::dispatch::keyword_bytes;
use framepipe::dispatch::Command;
use framepipe::frame::FrameAccumulator;
use framepipe::text::check_utf8;
use framepipe::text::contains_bytes;

#[test]
fn keyword_is_hello() {
    assert_eq!(keyword_bytes(), b"hello".to_vec());
}

#[test]
fn text_with_keyword_routes_to_handler_a() {
    let (c, resp) = handle_frame(b"well hello there");
    assert_eq!(c, Command::Greet);
    assert_eq!(resp, Some(handler_a()));
}

#[test]
fn text_without_keyword_routes_to_handler_b() {
    let (c, resp) = handle_frame(b"world");
    assert_eq!(c, Command::Fallback);
    assert_eq!(resp, Some(handler_b()));
}

#[test]
fn handlers_disagree() {
    assert_ne!(handler_a(), handler_b());
    assert_eq!(handler_a(), "\u{4f60}\u{597d}\u{ff01}");
    assert_eq!(handler_b(), "\u{60a8}\u{4eec}\u{597d}\u{ff01}");
}

#[test]
fn non_utf8_frame_is_reported_raw_and_not_dispatched() {
    // A non-UTF-8 payload followed by a delimiter: one frame of
    // length 2, classified raw, no handler response.
    let mut acc = FrameAccumulator::new();
    let frames = acc.push_bytes(&[0xFF, 0xFE, 0x00]);
    assert_eq!(frames.len(), 1);
    assert_eq!(frames[0], vec![0xFF, 0xFE]);
    let (c, resp) = handle_frame(&frames[0]);
    assert_eq!(c, Command::RawData);
    assert_eq!(resp, None);
}

#[test]
fn classification_agrees_with_str_contains() {
    for payload in [
        &b"hello"[..],
        b"xxhelloyy",
        b"hell",
        b"HELLO",
        b"",
        b"say hello twice hello",
    ] {
        let expected = if std::str::from_utf8(payload).unwrap().contains("hello") {
            Command::Greet
        } else {
            Command::Fallback
        };
        assert_eq!(classify(payload), expected);
    }
}

#[test]
fn utf8_checker_agrees_with_std() {
    let cases: Vec<Vec<u8>> = vec![
        b"".to_vec(),
        b"plain ascii".to_vec(),
        "h\u{e9}llo".as_bytes().to_vec(),
        "\u{4f60}\u{597d}".as_bytes().to_vec(),
        "\u{1f600}".as_bytes().to_vec(),
        vec![0xFF, 0xFE],
        vec![0xC0, 0x80],             // overlong two-byte form
        vec![0xC2],                   // truncated sequence
        vec![0xE0, 0x80, 0x80],       // overlong three-byte form
        vec![0xED, 0xA0, 0x80],       // surrogate
        vec![0xE2, 0x82, 0xAC],       // valid three-byte scalar
        vec![0xF0, 0x80, 0x80, 0x80], // overlong four-byte form
        vec![0xF4, 0x90, 0x80, 0x80], // beyond the last scalar value
        vec![0xF4, 0x8F, 0xBF, 0xBF], // the last scalar value
        vec![0x80],                   // stray continuation byte
        vec![0x61, 0xC2, 0xA9, 0x62], // mixed ascii and two-byte
    ];
    for bytes in cases {
        assert_eq!(
            check_utf8(&bytes),
            std::str::from_utf8(&bytes).is_ok(),
            "disagreement on {:?}",
            bytes
        );
    }
}

#[test]
fn contains_bytes_edges() {
    assert!(contains_bytes(b"abc", b""));
    assert!(contains_bytes(b"abc", b"abc"));
    assert!(contains_bytes(b"abc", b"bc"));
    assert!(!contains_bytes(b"abc", b"abcd"));
    assert!(!contains_bytes(b"", b"a"));
    assert!(contains_bytes(b"", b""));
    assert!(!contains_bytes(b"abab", b"aab"));
    assert!(contains_bytes(b"aaab", b"aab"));
}
