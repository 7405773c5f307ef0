//! Consumer-side interpretation of a frame: classify the payload and
//! pick the matching handler's response.
//!
//! A payload that is well-formed UTF-8 and contains the keyword routes
//! to handler A; other well-formed text routes to handler B; a payload
//! that is not well-formed text is only reported raw, never
//! dispatched, and never stops the consumer.

use vstd::prelude::*;

use crate::text::contains_bytes;
use crate::text::contains_seq;
use crate::text::check_utf8;
use crate::text::is_valid_utf8;

verus! {

/// The keyword that routes a text payload to handler A: the bytes of
/// `"hello"`.
pub open spec fn keyword() -> Seq<u8> {
    seq![104u8, 101u8, 108u8, 108u8, 111u8]
}

/// The keyword as an owned byte vector.
pub fn keyword_bytes() -> (r: Vec<u8>)
    ensures
        r@ == keyword(),
{
    let mut r: Vec<u8> = Vec::new();
    r.push(104);
    r.push(101);
    r.push(108);
    r.push(108);
    r.push(111);
    proof {
        assert(r@ =~= keyword());
    }
    r
}

/// What a frame payload is, once inspected.
#[derive(Clone, Copy, Debug, PartialEq, Eq, Structural)]
pub enum Command {
    /// Well-formed text containing the keyword: handler A.
    Greet,
    /// Well-formed text without the keyword: handler B.
    Fallback,
    /// Not well-formed text: report the raw bytes, dispatch nothing.
    RawData,
}

/// The classification of a frame payload.
pub open spec fn classification(payload: Seq<u8>) -> Command {
    if !is_valid_utf8(payload) {
        Command::RawData
    } else if contains_seq(payload, keyword()) {
        Command::Greet
    } else {
        Command::Fallback
    }
}

/// Classify a frame payload.
pub fn classify(payload: &[u8]) -> (c: Command)
    ensures
        c == classification(payload@),
{
    if !check_utf8(payload) {
        Command::RawData
    } else {
        let kw = keyword_bytes();
        if contains_bytes(payload, kw.as_slice()) {
            Command::Greet
        } else {
            Command::Fallback
        }
    }
}

/// Handler A's response text.
pub fn handler_a() -> (r: &'static str)
    ensures
        r@ == "\u{4f60}\u{597d}\u{ff01}"@,
{
    "\u{4f60}\u{597d}\u{ff01}"
}

/// Handler B's response text.
pub fn handler_b() -> (r: &'static str)
    ensures
        r@ == "\u{60a8}\u{4eec}\u{597d}\u{ff01}"@,
{
    "\u{60a8}\u{4eec}\u{597d}\u{ff01}"
}

/// Handle one frame: classify it and, for a text payload, pick the
/// response of the handler it routes to.  A payload that is not
/// well-formed text gets no response.
pub fn handle_frame(payload: &[u8]) -> (r: (Command, Option<&'static str>))
    ensures
        r.0 == classification(payload@),
        r.0 == Command::Greet ==> (r.1 matches Some(s) && s@ == "\u{4f60}\u{597d}\u{ff01}"@),
        r.0 == Command::Fallback ==> (r.1 matches Some(s) && s@
            == "\u{60a8}\u{4eec}\u{597d}\u{ff01}"@),
        r.0 == Command::RawData ==> r.1 is None,
{
    let c = classify(payload);
    match c {
        Command::Greet => (c, Some(handler_a())),
        Command::Fallback => (c, Some(handler_b())),
        Command::RawData => (c, None),
    }
}

} // verus!
