//! Framing of the control socket.
//!
//! A control connection carries two kinds of messages in one byte stream:
//! text commands, each ended by a newline, and binary messages, each made of
//! the four bytes `HIER`, a message type and a payload whose length the type
//! fixes. The same binary messages are what a compositor forwards to the
//! compositor nested in one of its windows.

use vstd::prelude::*;

verus! {

/// What the front of a control buffer holds.
#[derive(Debug, Clone, Copy, PartialEq, Eq, Structural)]
pub enum ControlFrame {
    /// Nothing can be taken yet: more bytes are needed.
    Incomplete,
    /// A binary message of type `msg_type` whose payload ends at byte `end`
    /// (the payload starts at byte 5); the first `end` bytes are consumed.
    Binary { msg_type: u8, end: usize },
    /// A binary header of an unknown type: its 5 bytes are consumed and an
    /// error is answered.
    UnknownBinary,
    /// A text line whose newline is byte `end - 1`; the first `end` bytes are
    /// consumed.
    Line { end: usize },
}

/// The bytes `H`, `I`, `E`, `R`.
pub open spec fn magic() -> Seq<u8> {
    seq![72u8, 73u8, 69u8, 82u8]
}

/// The buffer starts with the binary magic.
pub open spec fn has_magic(b: Seq<u8>) -> bool {
    b.len() >= 4 && b.subrange(0, 4) == magic()
}

/// The payload length of each binary message type.
pub open spec fn spec_payload_len(msg_type: u8) -> Option<nat> {
    if msg_type == 1 || msg_type == 4 {
        Some(5)
    } else if msg_type == 2 || msg_type == 3 || msg_type == 5 || msg_type == 7 {
        Some(16)
    } else if msg_type == 6 {
        Some(8)
    } else if msg_type == 8 {
        Some(0)
    } else {
        None
    }
}

/// `i` is the first newline of `b`.
pub open spec fn first_newline(b: Seq<u8>, i: int) -> bool {
    &&& 0 <= i < b.len()
    &&& b[i] == 10
    &&& forall|j: int| 0 <= j < i ==> b[j] != 10
}

/// What the front of buffer `b` holds.
pub open spec fn frame_of(b: Seq<u8>) -> ControlFrame {
    if b.len() == 0 {
        ControlFrame::Incomplete
    } else if has_magic(b) {
        if b.len() < 5 {
            ControlFrame::Incomplete
        } else {
            match spec_payload_len(b[4]) {
                None => ControlFrame::UnknownBinary,
                Some(n) => if b.len() < 5 + n {
                    ControlFrame::Incomplete
                } else {
                    ControlFrame::Binary { msg_type: b[4], end: (5 + n) as usize }
                },
            }
        }
    } else if exists|i: int| first_newline(b, i) {
        ControlFrame::Line { end: ((choose|i: int| first_newline(b, i)) + 1) as usize }
    } else {
        ControlFrame::Incomplete
    }
}

/// The payload length of a binary message type, if the type is known.
pub fn payload_len(msg_type: u8) -> (r: Option<usize>)
    ensures
        match spec_payload_len(msg_type) {
            Some(n) => r == Some(n as usize),
            None => r is None,
        },
{
    match msg_type {
        1 | 4 => Some(5),
        2 | 3 | 5 | 7 => Some(16),
        6 => Some(8),
        8 => Some(0),
        _ => None,
    }
}

/// A newline has at most one first position.
proof fn lemma_first_newline_unique(b: Seq<u8>, i: int, j: int)
    requires
        first_newline(b, i),
        first_newline(b, j),
    ensures
        i == j,
{
}

/// What the front of the buffer holds.
pub fn next_frame(buf: &[u8]) -> (r: ControlFrame)
    ensures
        r == frame_of(buf@),
{
    let n = buf.len();
    if n == 0 {
        return ControlFrame::Incomplete;
    }
    let magic_ok = n >= 4 && buf[0] == 72 && buf[1] == 73 && buf[2] == 69 && buf[3] == 82;
    proof {
        if n >= 4 {
            assert(magic_ok == (buf@.subrange(0, 4) =~= magic()));
        }
    }
    if magic_ok {
        if n < 5 {
            return ControlFrame::Incomplete;
        }
        let t = buf[4];
        match payload_len(t) {
            None => ControlFrame::UnknownBinary,
            Some(len) => {
                if n - 5 < len {
                    ControlFrame::Incomplete
                } else {
                    ControlFrame::Binary { msg_type: t, end: 5 + len }
                }
            },
        }
    } else {
        let mut i: usize = 0;
        while i < n
            invariant
                n == buf@.len(),
                n > 0,
                !has_magic(buf@),
                i <= n,
                forall|j: int| 0 <= j < i ==> buf@[j] != 10,
            decreases n - i,
        {
            if buf[i] == 10 {
                proof {
                    assert(first_newline(buf@, i as int));
                    let k = choose|k: int| first_newline(buf@, k);
                    lemma_first_newline_unique(buf@, i as int, k);
                }
                return ControlFrame::Line { end: i + 1 };
            }
            i = i + 1;
        }
        proof {
            assert(!exists|k: int| first_newline(buf@, k));
        }
        ControlFrame::Incomplete
    }
}

/// A binary message: the magic, the type, then the payload.
pub open spec fn spec_encode_frame(msg_type: u8, payload: Seq<u8>) -> Seq<u8> {
    magic().push(msg_type) + payload
}

/// Encodes a binary message for a nested compositor.
pub fn encode_frame(msg_type: u8, payload: &[u8]) -> (r: Vec<u8>)
    requires
        payload@.len() + 5 <= usize::MAX,
    ensures
        r@ == spec_encode_frame(msg_type, payload@),
{
    let mut r: Vec<u8> = Vec::new();
    r.push(72);
    r.push(73);
    r.push(69);
    r.push(82);
    r.push(msg_type);
    let mut i: usize = 0;
    while i < payload.len()
        invariant
            i <= payload@.len(),
            r@ == magic().push(msg_type) + payload@.subrange(0, i as int),
        decreases payload@.len() - i,
    {
        proof {
            assert(payload@.subrange(0, i + 1) =~= payload@.subrange(0, i as int).push(payload@[i as int]));
        }
        r.push(payload[i]);
        proof {
            assert(r@ =~= magic().push(msg_type) + payload@.subrange(0, i + 1));
        }
        i = i + 1;
    }
    proof {
        assert(payload@.subrange(0, i as int) =~= payload@);
    }
    r
}

/// The little-endian value of four bytes.
pub open spec fn le_u32(b0: u8, b1: u8, b2: u8, b3: u8) -> int {
    b0 + 256 * b1 + 65536 * b2 + 16777216 * b3
}

/// A key or button payload: the code as four little-endian bytes, then 1
/// for a press or 0 for a release.
pub open spec fn spec_key_payload(code: u32, pressed: bool) -> Seq<u8> {
    seq![
        (code & 0xff) as u8,
        ((code >> 8) & 0xff) as u8,
        ((code >> 16) & 0xff) as u8,
        ((code >> 24) & 0xff) as u8,
        if pressed { 1u8 } else { 0u8 },
    ]
}

/// Encodes a key or button event as a binary payload.
pub fn encode_key_payload(code: u32, pressed: bool) -> (r: Vec<u8>)
    ensures
        r@ == spec_key_payload(code, pressed),
{
    let mut r: Vec<u8> = Vec::new();
    r.push((code & 0xff) as u8);
    r.push(((code >> 8) & 0xff) as u8);
    r.push(((code >> 16) & 0xff) as u8);
    r.push(((code >> 24) & 0xff) as u8);
    r.push(if pressed { 1u8 } else { 0u8 });
    proof {
        assert(r@ =~= spec_key_payload(code, pressed));
    }
    r
}

/// Decodes a key or button payload into the code and whether it is a press
/// (state byte 1; any other state byte is a release). A payload shorter than
/// 5 bytes is refused.
pub fn decode_key_payload(payload: &[u8]) -> (r: Option<(u32, bool)>)
    ensures
        payload@.len() < 5 ==> r is None,
        payload@.len() >= 5 ==> r == Some((
            le_u32(payload@[0], payload@[1], payload@[2], payload@[3]) as u32,
            payload@[4] == 1,
        )),
{
    if payload.len() < 5 {
        return None;
    }
    let b0 = payload[0] as u32;
    let b1 = payload[1] as u32;
    let b2 = payload[2] as u32;
    let b3 = payload[3] as u32;
    let code = b0 + 256 * b1 + 65536 * b2 + 16777216 * b3;
    Some((code, payload[4] == 1))
}

/// Encoding a key event and decoding it again gives the event back.
pub proof fn law_key_payload_round_trip(code: u32, pressed: bool)
    ensures
        ({
            let p = spec_key_payload(code, pressed);
            le_u32(p[0], p[1], p[2], p[3]) == code && (p[4] == 1) == pressed
        }),
{
    let p = spec_key_payload(code, pressed);
    assert(((code & 0xff) as u8) + 256 * (((code >> 8) & 0xff) as u8) + 65536 * (((code >> 16) & 0xff) as u8)
        + 16777216 * (((code >> 24) & 0xff) as u8) == code) by (bit_vector);
}

/// A binary message read back from the front of a stream is the message that
/// was written, whatever follows it.
pub proof fn law_frame_round_trip(msg_type: u8, payload: Seq<u8>, rest: Seq<u8>)
    requires
        spec_payload_len(msg_type) == Some(payload.len()),
    ensures
        ({
            let b = spec_encode_frame(msg_type, payload) + rest;
            &&& frame_of(b) == (ControlFrame::Binary { msg_type, end: (5 + payload.len()) as usize })
            &&& b.subrange(5, 5 + payload.len() as int) == payload
        }),
{
    let b = spec_encode_frame(msg_type, payload) + rest;
    assert(b.subrange(0, 4) =~= magic());
    assert(b[4] == msg_type);
    assert(b.subrange(5, 5 + payload.len() as int) =~= payload);
}

} // verus!
