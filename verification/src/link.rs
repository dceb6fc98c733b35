//! The byte protocols between nodes: the one-byte control messages that the
//! controller sends over its stream connection, and the length-prefixed
//! frames exchanged with the servo board.

use vstd::prelude::*;

verus! {

/// A control message of the controller's stream connection.
#[derive(Debug, Clone, Copy, PartialEq, Eq, Structural)]
pub enum ControlMessage {
    /// Sent last, when the controller closes.
    Close,
    /// Sent once the controller has connected.
    Start,
    /// Asks the receiving node to shut down.
    Shutdown,
}

/// The byte that carries each control message.
pub open spec fn control_code(m: ControlMessage) -> u8 {
    match m {
        ControlMessage::Close => 0,
        ControlMessage::Start => 1,
        ControlMessage::Shutdown => 2,
    }
}

/// The control message a byte carries, if any.
pub open spec fn control_of(byte: u8) -> Option<ControlMessage> {
    if byte == 0 {
        Some(ControlMessage::Close)
    } else if byte == 1 {
        Some(ControlMessage::Start)
    } else if byte == 2 {
        Some(ControlMessage::Shutdown)
    } else {
        None
    }
}

impl ControlMessage {
    /// The byte that carries this message.
    pub fn code(&self) -> (b: u8)
        ensures
            b == control_code(*self),
    {
        match self {
            ControlMessage::Close => 0,
            ControlMessage::Start => 1,
            ControlMessage::Shutdown => 2,
        }
    }

    /// The message a received byte carries; other bytes carry none and are ignored.
    pub fn from_byte(byte: u8) -> (m: Option<ControlMessage>)
        ensures
            m == control_of(byte),
    {
        match byte {
            0 => Some(ControlMessage::Close),
            1 => Some(ControlMessage::Start),
            2 => Some(ControlMessage::Shutdown),
            _ => None,
        }
    }
}

/// Every control message is read back as itself, and only byte 2 asks for a shutdown.
pub proof fn lemma_control_roundtrip(m: ControlMessage, byte: u8)
    ensures
        control_of(control_code(m)) == Some(m),
        control_of(byte) == Some(ControlMessage::Shutdown) <==> byte == 2,
{
}

/// 2 to the 32nd: one more than the largest frame length.
pub open spec fn frame_len_bound() -> int {
    0x1_0000_0000
}

/// The four bytes of `n`, most significant first.
pub open spec fn be32_bytes(n: int) -> Seq<u8> {
    seq![
        (n / 0x100_0000 % 256) as u8,
        (n / 0x1_0000 % 256) as u8,
        (n / 0x100 % 256) as u8,
        (n % 256) as u8,
    ]
}

/// The number that four bytes stand for, most significant first.
pub open spec fn be32_value(h: Seq<u8>) -> int {
    h[0] * 0x100_0000 + h[1] * 0x1_0000 + h[2] * 0x100 + h[3]
}

/// A frame: the payload's length (modulo 2^32) in four bytes, most
/// significant first, then the payload.
pub open spec fn frame_bytes(payload: Seq<u8>) -> Seq<u8> {
    be32_bytes((payload.len() as int) % frame_len_bound()) + payload
}

/// Frames a payload for the stream connection to the servo board.
pub fn encode_frame(payload: &[u8]) -> (frame: Vec<u8>)
    ensures
        frame@ == frame_bytes(payload@),
        frame@.len() == payload@.len() + 4,
        frame@[0] * 0x100_0000 + frame@[1] * 0x1_0000 + frame@[2] * 0x100 + frame@[3]
            == payload@.len() % 0x1_0000_0000,
        frame@.subrange(4, frame@.len() as int) == payload@,
{
    let n: u64 = (payload.len() as u64) % 0x1_0000_0000u64;
    let mut frame: Vec<u8> = Vec::new();
    frame.push((n / 0x100_0000 % 256) as u8);
    frame.push((n / 0x1_0000 % 256) as u8);
    frame.push((n / 0x100 % 256) as u8);
    frame.push((n % 256) as u8);
    let ghost head = frame@;
    proof {
        lemma_frame_header_positional(payload@);
    }
    assert(head =~= be32_bytes((payload@.len() as int) % frame_len_bound()));
    let len = payload.len();
    for i in 0..len
        invariant
            len == payload@.len(),
            frame@ =~= head + payload@.subrange(0, i as int),
    {
        frame.push(payload[i]);
    }
    assert(payload@.subrange(0, len as int) =~= payload@);
    assert(frame@.subrange(4, frame@.len() as int) =~= payload@);
    frame
}

/// The payload length that a frame header announces.
pub fn frame_body_len(header: [u8; 4]) -> (n: u32)
    ensures
        n == be32_value(header@),
        n / 0x100_0000 == header[0],
        n / 0x1_0000 % 256 == header[1],
        n / 0x100 % 256 == header[2],
        n % 256 == header[3],
{
    let a = header[0] as u32;
    let b = header[1] as u32;
    let c = header[2] as u32;
    let d = header[3] as u32;
    proof {
        lemma_be32_digits(header@);
    }
    a * 0x100_0000 + b * 0x1_0000 + c * 0x100 + d
}

/// What a frame reader waits for next.
#[derive(Debug, Clone, Copy, PartialEq, Eq, Structural)]
pub enum ReadPhase {
    /// The four header bytes.
    Header,
    /// A payload of the given length.
    Body(u32),
}

/// How many bytes the reader needs in a phase.
pub open spec fn phase_needs(p: ReadPhase) -> int {
    match p {
        ReadPhase::Header => 4,
        ReadPhase::Body(n) => n as int,
    }
}

/// The phase after a chunk of the needed size arrives, and the payload that
/// chunk completes, if any.
pub open spec fn feed_result(p: ReadPhase, chunk: Seq<u8>) -> (ReadPhase, Option<Seq<u8>>) {
    match p {
        ReadPhase::Header => (ReadPhase::Body(be32_value(chunk) as u32), None),
        ReadPhase::Body(_) => (ReadPhase::Header, Some(chunk)),
    }
}

/// Reads frames from a stream, one exactly-sized chunk at a time: first
/// the header, then the payload it announces.
pub struct FrameReader {
    phase: ReadPhase,
}

impl View for FrameReader {
    type V = ReadPhase;

    closed spec fn view(&self) -> ReadPhase {
        self.phase
    }
}

impl FrameReader {
    /// A reader that waits for a header.
    pub fn new() -> (r: FrameReader)
        ensures
            r@ == ReadPhase::Header,
    {
        FrameReader { phase: ReadPhase::Header }
    }

    /// The size of the next chunk to read.
    pub fn needed(&self) -> (n: usize)
        ensures
            n == phase_needs(self@),
    {
        match self.phase {
            ReadPhase::Header => 4,
            ReadPhase::Body(n) => n as usize,
        }
    }

    /// Takes in the next chunk, which has the size `needed` gave; gives the
    /// payload when the chunk completes a frame.
    pub fn feed(&mut self, chunk: &[u8]) -> (payload: Option<Vec<u8>>)
        requires
            chunk@.len() == phase_needs(old(self)@),
        ensures
            final(self)@ == feed_result(old(self)@, chunk@).0,
            match (payload, feed_result(old(self)@, chunk@).1) {
                (Some(v), Some(s)) => v@ == s,
                (None, None) => true,
                _ => false,
            },
    {
        match self.phase {
            ReadPhase::Header => {
                let header: [u8; 4] = [chunk[0], chunk[1], chunk[2], chunk[3]];
                assert(header@ =~= chunk@);
                self.phase = ReadPhase::Body(frame_body_len(header));
                None
            },
            ReadPhase::Body(_) => {
                self.phase = ReadPhase::Header;
                let mut v: Vec<u8> = Vec::new();
                let len = chunk.len();
                for i in 0..len
                    invariant
                        len == chunk@.len(),
                        v@ =~= chunk@.subrange(0, i as int),
                {
                    v.push(chunk[i]);
                }
                assert(chunk@.subrange(0, len as int) =~= chunk@);
                Some(v)
            },
        }
    }
}

/// A frame read back gives its payload: a reader waiting for a header that
/// is fed the first four bytes of a frame, then as many bytes as it asks
/// for, returns the payload and waits for the next header.
pub proof fn lemma_frame_roundtrip(payload: Seq<u8>)
    requires
        payload.len() < frame_len_bound(),
    ensures
        ({
            let f = frame_bytes(payload);
            let (p1, o1) = feed_result(ReadPhase::Header, f.subrange(0, 4));
            let (p2, o2) = feed_result(p1, f.subrange(4, 4 + phase_needs(p1)));
            &&& o1 is None
            &&& phase_needs(p1) == payload.len()
            &&& p2 == ReadPhase::Header
            &&& o2 == Some(payload)
        }),
{
    let f = frame_bytes(payload);
    let n = payload.len() as int;
    let h = f.subrange(0, 4);
    assert(h =~= be32_bytes(n));
    assert(be32_value(be32_bytes(n)) == n);
    assert(f.subrange(4, 4 + n) =~= payload);
}


/// The header of a frame is the payload's length (modulo 2^32) in
/// big-endian positional notation: h0 * 2^24 + h1 * 2^16 + h2 * 2^8 + h3,
/// with each of the four bytes a digit below 256; the payload follows it
/// unchanged.
pub proof fn lemma_frame_header_positional(payload: Seq<u8>)
    ensures
        ({
            let f = frame_bytes(payload);
            &&& f.len() == payload.len() + 4
            &&& f[0] * 0x100_0000 + f[1] * 0x1_0000 + f[2] * 0x100 + f[3] == payload.len()
                % 0x1_0000_0000
            &&& f.subrange(4, f.len() as int) == payload
        }),
{
    let f = frame_bytes(payload);
    let n: int = (payload.len() as int) % 0x1_0000_0000;
    assert(0 <= n < 0x1_0000_0000);
    assert(f[0] == n / 0x100_0000 % 256);
    assert(f[1] == n / 0x1_0000 % 256);
    assert(f[2] == n / 0x100 % 256);
    assert(f[3] == n % 256);
    assert(n / 0x100_0000 % 256 == n / 0x100_0000);
    assert(f[0] * 0x100_0000 + f[1] * 0x1_0000 + f[2] * 0x100 + f[3] == n);
    assert(f.subrange(4, f.len() as int) =~= payload);
}

/// The length a header announces has the header's four bytes as its
/// base-256 digits, most significant first.
pub proof fn lemma_be32_digits(h: Seq<u8>)
    requires
        h.len() == 4,
    ensures
        be32_value(h) / 0x100_0000 == h[0],
        be32_value(h) / 0x1_0000 % 256 == h[1],
        be32_value(h) / 0x100 % 256 == h[2],
        be32_value(h) % 256 == h[3],
        0 <= be32_value(h) < 0x1_0000_0000,
{
    let v = h[0] * 0x100_0000 + h[1] * 0x1_0000 + h[2] * 0x100 + h[3];
    assert(v / 0x100_0000 == h[0]);
    assert(v / 0x1_0000 == h[0] * 0x100 + h[1]);
    assert(v / 0x100 == h[0] * 0x1_0000 + h[1] * 0x100 + h[2]);
}

} // verus!
