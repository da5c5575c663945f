//! Wire format of the companion-app protocol.
//!
//! ```text
//! | Magic (2B) 0x4E42 | Type (1B) 0x01-0x03 | Length (4B, big-endian) | Payload (N B) |
//! ```
//!
//! Message types: 0x01 request (server to companion), 0x02 response
//! (companion to server), 0x03 event (companion to server, unsolicited).

use vstd::prelude::*;
use bytes::BytesMut;
use crate::protocol::buffer::{buffer_advance, buffer_as_slice, buffer_contents, buffer_extend, buffer_split_to, buffer_with_capacity};
use crate::text::{decimal_nat, hex_fixed, hex_fixed_exec, push_chars, push_decimal, push_str, string_from_chars};

verus! {

/// Magic bytes: "NB".
pub const MAGIC: u16 = 0x4E42;

/// First magic byte ('N').
pub const MAGIC_HI: u8 = 0x4E;

/// Second magic byte ('B').
pub const MAGIC_LO: u8 = 0x42;

/// Header size in bytes: 2 (magic) + 1 (type) + 4 (length).
pub const HEADER_SIZE: usize = 7;

/// Largest payload a header may announce (16 MiB).
pub const MAX_PAYLOAD_SIZE: u32 = 16777216;

/// How far `MessageFramer` looks for a magic marker when it realigns.
pub const MAX_SCAN_BYTES: usize = 256;

/// Message type carried in the third header byte.
#[derive(Debug, Clone, Copy, PartialEq, Eq, Structural)]
pub enum MessageType {
    Request,
    Response,
    Event,
}

/// Why a header or frame could not be decoded.
#[derive(Debug, Clone, Copy, PartialEq, Eq, Structural)]
pub enum CodecError {
    /// The type byte is none of 0x01, 0x02, 0x03.
    InvalidMessageType(u8),
    /// Fewer than seven bytes were given for a header (the count is attached).
    BufferTooShort(usize),
    /// The first two bytes, read big-endian, are not 0x4E42.
    InvalidMagic(u16),
    /// The announced payload length exceeds `MAX_PAYLOAD_SIZE`.
    PayloadTooLarge(u32),
    /// A frame announces more payload than the buffer holds:
    /// (bytes available after the header, bytes announced).
    IncompletePayload(usize, u32),
}

/// The text of a decoding error.
pub open spec fn codec_error_message(e: CodecError) -> Seq<char> {
    match e {
        CodecError::InvalidMessageType(v) => "Invalid message type: 0x"@ + hex_fixed(v as nat, 2),
        CodecError::BufferTooShort(n) => "Buffer too short for header: "@ + decimal_nat(n as nat) + " bytes"@,
        CodecError::InvalidMagic(m) => "Invalid magic bytes: 0x"@ + hex_fixed(m as nat, 4) + ", expected 0x4E42"@,
        CodecError::PayloadTooLarge(l) => "Payload length "@ + decimal_nat(l as nat) + " exceeds maximum 16777216"@,
        CodecError::IncompletePayload(a, n) => "Buffer too short for payload: "@ + decimal_nat(a as nat)
            + " bytes available, "@ + decimal_nat(n as nat) + " expected"@,
    }
}

impl CodecError {
    /// The error's text (see `codec_error_message`).
    pub fn message(&self) -> (r: String)
        ensures
            r@ == codec_error_message(*self),
    {
        let mut m: Vec<char> = Vec::new();
        match self {
            CodecError::InvalidMessageType(v) => {
                push_str(&mut m, "Invalid message type: 0x");
                let h = hex_fixed_exec(*v as u64, 2);
                push_chars(&mut m, h.as_slice());
            },
            CodecError::BufferTooShort(n) => {
                push_str(&mut m, "Buffer too short for header: ");
                push_decimal(&mut m, *n as u64);
                push_str(&mut m, " bytes");
            },
            CodecError::InvalidMagic(v) => {
                push_str(&mut m, "Invalid magic bytes: 0x");
                let h = hex_fixed_exec(*v as u64, 4);
                push_chars(&mut m, h.as_slice());
                push_str(&mut m, ", expected 0x4E42");
            },
            CodecError::PayloadTooLarge(l) => {
                push_str(&mut m, "Payload length ");
                push_decimal(&mut m, *l as u64);
                push_str(&mut m, " exceeds maximum 16777216");
            },
            CodecError::IncompletePayload(a, n) => {
                push_str(&mut m, "Buffer too short for payload: ");
                push_decimal(&mut m, *a as u64);
                push_str(&mut m, " bytes available, ");
                push_decimal(&mut m, *n as u64);
                push_str(&mut m, " expected");
            },
        }
        string_from_chars(m.as_slice())
    }
}

impl MessageType {
    /// The wire byte of each type.
    pub open spec fn spec_code(self) -> u8 {
        match self {
            MessageType::Request => 1,
            MessageType::Response => 2,
            MessageType::Event => 3,
        }
    }

    /// The type a wire byte stands for, if any.
    pub open spec fn spec_from_code(value: u8) -> Option<MessageType> {
        if value == 1 {
            Some(MessageType::Request)
        } else if value == 2 {
            Some(MessageType::Response)
        } else if value == 3 {
            Some(MessageType::Event)
        } else {
            None
        }
    }

    /// Wire byte of this type.
    pub fn code(&self) -> (r: u8)
        ensures
            r == self.spec_code(),
    {
        match self {
            MessageType::Request => 1,
            MessageType::Response => 2,
            MessageType::Event => 3,
        }
    }

    /// Parse a message type from its wire byte.
    pub fn from_u8(value: u8) -> (r: Result<MessageType, CodecError>)
        ensures
            match MessageType::spec_from_code(value) {
                Some(t) => r == Ok::<MessageType, CodecError>(t),
                None => r == Err::<MessageType, CodecError>(CodecError::InvalidMessageType(value)),
            },
    {
        match value {
            1 => Ok(MessageType::Request),
            2 => Ok(MessageType::Response),
            3 => Ok(MessageType::Event),
            _ => Err(CodecError::InvalidMessageType(value)),
        }
    }
}

/// Wire format header (seven bytes).
#[derive(Debug, Clone, Copy, PartialEq, Eq, Structural)]
pub struct MessageHeader {
    pub message_type: MessageType,
    pub payload_length: u32,
}

/// Big-endian bytes of a 32-bit value.
pub open spec fn be_u32_bytes(x: u32) -> Seq<u8> {
    seq![
        (x / 16777216) as u8,
        ((x / 65536) % 256) as u8,
        ((x / 256) % 256) as u8,
        (x % 256) as u8,
    ]
}

/// Value of four big-endian bytes.
pub open spec fn be_u32_value(b0: u8, b1: u8, b2: u8, b3: u8) -> u32 {
    (b0 * 16777216 + b1 * 65536 + b2 * 256 + b3) as u32
}

/// The seven header bytes for a message type and payload length.
pub open spec fn header_bytes(t: MessageType, len: u32) -> Seq<u8> {
    seq![MAGIC_HI, MAGIC_LO, t.spec_code()] + be_u32_bytes(len)
}

/// What decoding the first seven bytes of `buf` as a header yields.
pub open spec fn decode_header_spec(buf: Seq<u8>) -> Result<MessageHeader, CodecError> {
    if buf.len() < HEADER_SIZE {
        Err(CodecError::BufferTooShort(buf.len() as usize))
    } else if buf[0] != MAGIC_HI || buf[1] != MAGIC_LO {
        Err(CodecError::InvalidMagic((buf[0] * 256 + buf[1]) as u16))
    } else {
        match MessageType::spec_from_code(buf[2]) {
            None => Err(CodecError::InvalidMessageType(buf[2])),
            Some(t) => {
                let len = be_u32_value(buf[3], buf[4], buf[5], buf[6]);
                if len > MAX_PAYLOAD_SIZE {
                    Err(CodecError::PayloadTooLarge(len))
                } else {
                    Ok(MessageHeader { message_type: t, payload_length: len })
                }
            },
        }
    }
}

/// A whole frame: header followed by the payload. The length field carries the
/// payload length modulo 2^32, as the `u32` conversion of the length does.
pub open spec fn frame_bytes(t: MessageType, payload: Seq<u8>) -> Seq<u8> {
    header_bytes(t, payload.len() as u32) + payload
}

/// What decoding a frame from the start of `buf` yields: its header and payload.
pub open spec fn decode_frame_spec(buf: Seq<u8>) -> Result<(MessageHeader, Seq<u8>), CodecError> {
    match decode_header_spec(buf) {
        Err(e) => Err(e),
        Ok(h) => {
            if buf.len() < HEADER_SIZE + h.payload_length {
                Err(CodecError::IncompletePayload((buf.len() - HEADER_SIZE) as usize, h.payload_length))
            } else {
                Ok((h, buf.subrange(HEADER_SIZE as int, HEADER_SIZE + h.payload_length)))
            }
        },
    }
}

proof fn lemma_be_u32_roundtrip(x: u32)
    ensures
        be_u32_value(be_u32_bytes(x)[0], be_u32_bytes(x)[1], be_u32_bytes(x)[2], be_u32_bytes(x)[3]) == x,
{
    let b0 = x / 16777216;
    let b1 = (x / 65536) % 256;
    let b2 = (x / 256) % 256;
    let b3 = x % 256;
    assert(x / 16777216 * 16777216 + (x / 65536) % 256 * 65536 + (x / 256) % 256 * 256 + x % 256 == x)
        by (bit_vector);
}

impl MessageHeader {
    /// Header size in bytes.
    pub const SIZE: usize = 7;

    /// Maximum payload size (16 MiB).
    pub const MAX_PAYLOAD_SIZE: u32 = 16777216;

    /// Create a new header.
    pub fn new(message_type: MessageType, payload_length: u32) -> (h: MessageHeader)
        ensures
            h.message_type == message_type,
            h.payload_length == payload_length,
    {
        MessageHeader { message_type, payload_length }
    }

    /// Encode the header to its seven wire bytes.
    pub fn encode(&self) -> (r: [u8; 7])
        ensures
            r@ == header_bytes(self.message_type, self.payload_length),
    {
        let len = self.payload_length;
        let r = [
            MAGIC_HI,
            MAGIC_LO,
            self.message_type.code(),
            (len / 16777216) as u8,
            ((len / 65536) % 256) as u8,
            ((len / 256) % 256) as u8,
            (len % 256) as u8,
        ];
        assert(r@ =~= header_bytes(self.message_type, self.payload_length));
        r
    }

    /// Decode a header from the first seven bytes of `buf`.
    pub fn decode(buf: &[u8]) -> (r: Result<MessageHeader, CodecError>)
        ensures
            r == decode_header_spec(buf@),
    {
        if buf.len() < HEADER_SIZE {
            return Err(CodecError::BufferTooShort(buf.len()));
        }
        if buf[0] != MAGIC_HI || buf[1] != MAGIC_LO {
            let magic: u16 = (buf[0] as u16) * 256 + (buf[1] as u16);
            return Err(CodecError::InvalidMagic(magic));
        }
        let message_type = match MessageType::from_u8(buf[2]) {
            Ok(t) => t,
            Err(e) => return Err(e),
        };
        let payload_length: u32 = (buf[3] as u32) * 16777216 + (buf[4] as u32) * 65536
            + (buf[5] as u32) * 256 + (buf[6] as u32);
        if payload_length > MAX_PAYLOAD_SIZE {
            return Err(CodecError::PayloadTooLarge(payload_length));
        }
        Ok(MessageHeader { message_type, payload_length })
    }
}

/// Decoding the bytes of a header gives the header back, whatever follows it,
/// for every length the decoder accepts.
pub proof fn lemma_header_roundtrip(t: MessageType, len: u32, rest: Seq<u8>)
    requires
        len <= MAX_PAYLOAD_SIZE,
    ensures
        decode_header_spec(header_bytes(t, len) + rest)
            == Ok::<MessageHeader, CodecError>(MessageHeader { message_type: t, payload_length: len }),
{
    let b = header_bytes(t, len) + rest;
    lemma_be_u32_roundtrip(len);
    assert(b[0] == MAGIC_HI && b[1] == MAGIC_LO && b[2] == t.spec_code());
    assert(b[3] == be_u32_bytes(len)[0] && b[4] == be_u32_bytes(len)[1]);
    assert(b[5] == be_u32_bytes(len)[2] && b[6] == be_u32_bytes(len)[3]);
}

/// A header whose length exceeds the limit is refused when decoded.
pub proof fn lemma_header_too_large_refused(t: MessageType, len: u32, rest: Seq<u8>)
    requires
        len > MAX_PAYLOAD_SIZE,
    ensures
        decode_header_spec(header_bytes(t, len) + rest)
            == Err::<MessageHeader, CodecError>(CodecError::PayloadTooLarge(len)),
{
    let b = header_bytes(t, len) + rest;
    lemma_be_u32_roundtrip(len);
    assert(b[0] == MAGIC_HI && b[1] == MAGIC_LO && b[2] == t.spec_code());
    assert(b[3] == be_u32_bytes(len)[0] && b[4] == be_u32_bytes(len)[1]);
    assert(b[5] == be_u32_bytes(len)[2] && b[6] == be_u32_bytes(len)[3]);
}

/// Build a frame: the header for `message_type` and the payload length, then
/// the payload (an already encoded protobuf message).
pub fn encode_frame(message_type: MessageType, payload: &[u8]) -> (r: Vec<u8>)
    requires
        payload@.len() + HEADER_SIZE <= usize::MAX,
    ensures
        r@ == frame_bytes(message_type, payload@),
{
    let payload_len: u32 = #[verifier::truncate] (payload.len() as u32);
    let header = MessageHeader::new(message_type, payload_len);
    let header_bytes = header.encode();
    let mut result: Vec<u8> = Vec::with_capacity(HEADER_SIZE + payload.len());
    let mut i: usize = 0;
    while i < HEADER_SIZE
        invariant
            i <= HEADER_SIZE,
            header_bytes@.len() == HEADER_SIZE,
            result@ == header_bytes@.take(i as int),
        decreases HEADER_SIZE - i,
    {
        result.push(header_bytes[i]);
        i = i + 1;
    }
    let mut j: usize = 0;
    while j < payload.len()
        invariant
            j <= payload@.len(),
            result@ == header_bytes@ + payload@.take(j as int),
        decreases payload@.len() - j,
    {
        result.push(payload[j]);
        j = j + 1;
        assert(payload@.take(j as int) == payload@.take(j - 1) + seq![payload@[j - 1]]);
    }
    assert(payload@.take(payload@.len() as int) == payload@);
    assert(payload_len == payload@.len() as u32);
    result
}

/// Copy `buf[from..to]` into a new vector.
pub fn copy_range(buf: &[u8], from: usize, to: usize) -> (r: Vec<u8>)
    requires
        from <= to <= buf@.len(),
    ensures
        r@ == buf@.subrange(from as int, to as int),
{
    let mut r: Vec<u8> = Vec::with_capacity(to - from);
    let mut i = from;
    while i < to
        invariant
            from <= i <= to,
            to <= buf@.len(),
            r@ == buf@.subrange(from as int, i as int),
        decreases to - i,
    {
        r.push(buf[i]);
        i = i + 1;
        assert(buf@.subrange(from as int, i as int) == buf@.subrange(from as int, i - 1) + seq![buf@[i - 1]]);
    }
    r
}

/// Decode a frame from the start of `buf`: its header and a copy of its payload.
/// Bytes after the payload are ignored.
pub fn decode_frame(buf: &[u8]) -> (r: Result<(MessageHeader, Vec<u8>), CodecError>)
    ensures
        match decode_frame_spec(buf@) {
            Ok((h, p)) => r matches Ok((h2, p2)) && h2 == h && p2@ == p,
            Err(e) => r == Err::<(MessageHeader, Vec<u8>), CodecError>(e),
        },
{
    let header = match MessageHeader::decode(buf) {
        Ok(h) => h,
        Err(e) => return Err(e),
    };
    let payload_end: usize = HEADER_SIZE + header.payload_length as usize;
    if buf.len() < payload_end {
        return Err(CodecError::IncompletePayload(buf.len() - HEADER_SIZE, header.payload_length));
    }
    let payload = copy_range(buf, HEADER_SIZE, payload_end);
    Ok((header, payload))
}

/// Decoding an encoded frame gives back its header and payload, and ignores
/// whatever follows the frame.
pub proof fn lemma_frame_roundtrip(t: MessageType, payload: Seq<u8>, rest: Seq<u8>)
    requires
        payload.len() <= MAX_PAYLOAD_SIZE,
    ensures
        decode_frame_spec(frame_bytes(t, payload) + rest) == Ok::<(MessageHeader, Seq<u8>), CodecError>(
            (MessageHeader { message_type: t, payload_length: payload.len() as u32 }, payload),
        ),
{
    let len = payload.len() as u32;
    let b = frame_bytes(t, payload) + rest;
    assert(b == header_bytes(t, len) + (payload + rest));
    lemma_header_roundtrip(t, len, payload + rest);
    assert(b.subrange(HEADER_SIZE as int, HEADER_SIZE + len) =~= payload);
}

// ---------------------------------------------------------------------------
// Streaming framer
// ---------------------------------------------------------------------------

/// Whether the magic marker starts at position `i` of `buf`.
pub open spec fn magic_at(buf: Seq<u8>, i: int) -> bool {
    0 <= i && i + 1 < buf.len() && buf[i] == MAGIC_HI && buf[i + 1] == MAGIC_LO
}

/// First position in `[from, limit)` where the magic marker starts.
pub open spec fn find_magic(buf: Seq<u8>, from: int, limit: int) -> Option<int>
    decreases limit - from,
{
    if from >= limit {
        None
    } else if magic_at(buf, from) {
        Some(from)
    } else {
        find_magic(buf, from + 1, limit)
    }
}

/// Where realignment resumes: the first magic marker at positions
/// `1 .. min(len, 256) - 2` (inclusive), if any.
pub open spec fn realign_offset(buf: Seq<u8>) -> Option<int> {
    let scan_limit = if buf.len() < MAX_SCAN_BYTES { buf.len() as int } else { MAX_SCAN_BYTES as int };
    find_magic(buf, 1, scan_limit - 1)
}

/// Outcome of one extraction attempt: the message (or need for more data, or an
/// error) and the bytes left buffered.
pub type ExtractOutcome = (Result<Option<(MessageHeader, Seq<u8>)>, CodecError>, Seq<u8>);

/// Take the message that `buf` starts with, given its decoded header.
pub open spec fn take_complete(buf: Seq<u8>, h: MessageHeader) -> ExtractOutcome {
    let total = HEADER_SIZE + h.payload_length;
    if buf.len() < total {
        (Ok(None), buf)
    } else {
        (Ok(Some((h, buf.subrange(HEADER_SIZE as int, total)))), buf.skip(total))
    }
}

/// One extraction step of the framer on buffered bytes `buf`:
/// - fewer than seven bytes: wait for more;
/// - a valid header: the message once all its payload is there, else wait;
/// - an invalid header: skip to the next magic marker within the first 256
///   bytes and decode there (waiting if fewer than seven bytes remain), or
///   report the error with nothing discarded when no marker is found.
pub open spec fn extract_step(buf: Seq<u8>) -> ExtractOutcome {
    if buf.len() < HEADER_SIZE {
        (Ok(None), buf)
    } else {
        match decode_header_spec(buf) {
            Ok(h) => take_complete(buf, h),
            Err(e) => match realign_offset(buf) {
                None => (Err(e), buf),
                Some(i) => {
                    let b2 = buf.skip(i);
                    if b2.len() < HEADER_SIZE {
                        (Ok(None), b2)
                    } else {
                        match decode_header_spec(b2) {
                            Err(e2) => (Err(e2), b2),
                            Ok(h) => take_complete(b2, h),
                        }
                    }
                },
            },
        }
    }
}

/// Exec result of an extraction, seen through the payload's view.
pub open spec fn extract_result_view(r: Result<Option<(MessageHeader, Vec<u8>)>, CodecError>) -> Result<
    Option<(MessageHeader, Seq<u8>)>,
    CodecError,
> {
    match r {
        Ok(Some((h, p))) => Ok(Some((h, p@))),
        Ok(None) => Ok(None),
        Err(e) => Err(e),
    }
}

/// Message framing for the streaming connection: accumulates bytes read from the
/// socket and cuts complete messages off its front.
pub struct MessageFramer {
    buffer: BytesMut,
}

impl View for MessageFramer {
    type V = Seq<u8>;

    /// The bytes buffered and not yet extracted.
    closed spec fn view(&self) -> Seq<u8> {
        buffer_contents(self.buffer)
    }
}

impl MessageFramer {
    /// Create a new, empty framer.
    pub fn new() -> (f: MessageFramer)
        ensures
            f@ == Seq::<u8>::empty(),
    {
        MessageFramer { buffer: buffer_with_capacity(4096) }
    }

    /// Add data read from the connection to the buffer.
    pub fn add_data(&mut self, data: &[u8])
        requires
            old(self)@.len() + data@.len() <= isize::MAX,
        ensures
            final(self)@ == old(self)@ + data@,
    {
        buffer_extend(&mut self.buffer, data)
    }

    /// Number of bytes currently buffered.
    pub fn buffered_len(&self) -> (n: usize)
        ensures
            n == self@.len(),
    {
        buffer_as_slice(&self.buffer).len()
    }

    /// Search the first 256 bytes for a magic marker (from position 1) and drop
    /// the bytes before it. Returns whether one was found.
    fn try_realign_buffer(&mut self) -> (found: bool)
        requires
            old(self)@.len() >= HEADER_SIZE,
        ensures
            match realign_offset(old(self)@) {
                Some(i) => found && final(self)@ == old(self)@.skip(i),
                None => !found && final(self)@ == old(self)@,
            },
    {
        let ghost buf = self@;
        let slice = buffer_as_slice(&self.buffer);
        let scan_limit: usize = if slice.len() < MAX_SCAN_BYTES {
            slice.len()
        } else {
            MAX_SCAN_BYTES
        };
        let mut i: usize = 1;
        while i < scan_limit - 1
            invariant
                slice@ == buf,
                self@ == buf,
                old(self)@ == buf,
                scan_limit <= slice@.len(),
                scan_limit >= HEADER_SIZE,
                1 <= i <= scan_limit - 1,
                scan_limit == (if buf.len() < MAX_SCAN_BYTES { buf.len() as int } else { MAX_SCAN_BYTES as int }),
                find_magic(buf, 1, scan_limit - 1) == find_magic(buf, i as int, scan_limit - 1),
            decreases scan_limit - 1 - i,
        {
            if slice[i] == MAGIC_HI && slice[i + 1] == MAGIC_LO {
                assert(magic_at(buf, i as int));
                assert(find_magic(buf, i as int, scan_limit - 1) == Some(i as int));
                buffer_advance(&mut self.buffer, i);
                return true;
            }
            i = i + 1;
        }
        false
    }

    /// Try to extract a complete message from the buffer.
    ///
    /// Returns `Ok(Some((header, payload)))` when a complete message is
    /// available, `Ok(None)` when more data is needed.
    pub fn try_extract_message(&mut self) -> (r: Result<Option<(MessageHeader, Vec<u8>)>, CodecError>)
        ensures
            (extract_result_view(r), final(self)@) == extract_step(old(self)@),
    {
        let ghost start = self@;
        let len = buffer_as_slice(&self.buffer).len();
        if len < HEADER_SIZE {
            return Ok(None);
        }
        let header = match MessageHeader::decode(buffer_as_slice(&self.buffer)) {
            Ok(h) => h,
            Err(e) => {
                if self.try_realign_buffer() {
                    if buffer_as_slice(&self.buffer).len() < HEADER_SIZE {
                        return Ok(None);
                    }
                    match MessageHeader::decode(buffer_as_slice(&self.buffer)) {
                        Ok(h) => h,
                        Err(e2) => return Err(e2),
                    }
                } else {
                    return Err(e);
                }
            },
        };
        let ghost cur = self@;
        assert(extract_step(start) == take_complete(cur, header));
        let total_size: usize = HEADER_SIZE + header.payload_length as usize;
        if buffer_as_slice(&self.buffer).len() < total_size {
            return Ok(None);
        }
        let message_bytes = buffer_split_to(&mut self.buffer, total_size);
        let whole = buffer_as_slice(&message_bytes);
        let payload = copy_range(whole, HEADER_SIZE, total_size);
        assert(payload@ =~= cur.subrange(HEADER_SIZE as int, total_size as int));
        Ok(Some((header, payload)))
    }
}

/// A buffer that starts with a whole frame yields that frame's header and
/// payload, and keeps exactly the bytes after it.
pub proof fn lemma_framer_extracts_frame(t: MessageType, payload: Seq<u8>, rest: Seq<u8>)
    requires
        payload.len() <= MAX_PAYLOAD_SIZE,
    ensures
        extract_step(frame_bytes(t, payload) + rest) == (
            Ok::<Option<(MessageHeader, Seq<u8>)>, CodecError>(
                Some((MessageHeader { message_type: t, payload_length: payload.len() as u32 }, payload)),
            ),
            rest,
        ),
{
    let len = payload.len() as u32;
    let b = frame_bytes(t, payload) + rest;
    assert(b == header_bytes(t, len) + (payload + rest));
    lemma_header_roundtrip(t, len, payload + rest);
    assert(b.subrange(HEADER_SIZE as int, HEADER_SIZE + len) =~= payload);
    assert(b.skip(HEADER_SIZE + len) =~= rest);
}

/// While only part of a frame has arrived the framer waits and keeps every byte.
pub proof fn lemma_framer_waits_on_partial_frame(t: MessageType, payload: Seq<u8>, k: int)
    requires
        payload.len() <= MAX_PAYLOAD_SIZE,
        0 <= k < frame_bytes(t, payload).len(),
    ensures
        extract_step(frame_bytes(t, payload).take(k))
            == (Ok::<Option<(MessageHeader, Seq<u8>)>, CodecError>(None), frame_bytes(t, payload).take(k)),
{
    let len = payload.len() as u32;
    let f = frame_bytes(t, payload);
    let p = f.take(k);
    if k >= HEADER_SIZE {
        assert(p == header_bytes(t, len) + payload.take(k - HEADER_SIZE));
        lemma_header_roundtrip(t, len, payload.take(k - HEADER_SIZE));
    }
}

// ---------------------------------------------------------------------------
// Streams of frames
// ---------------------------------------------------------------------------

/// A message as sent: its type and payload.
pub type Sent = (MessageType, Seq<u8>);

/// A message as extracted: its header and payload.
pub type Extracted = (MessageHeader, Seq<u8>);

/// Messages whose payloads fit the limit.
pub open spec fn sendable(ms: Seq<Sent>) -> bool {
    forall|i: int| 0 <= i < ms.len() ==> #[trigger] ms[i].1.len() <= MAX_PAYLOAD_SIZE
}

/// The bytes of messages sent one after the other.
pub open spec fn stream_of(ms: Seq<Sent>) -> Seq<u8>
    decreases ms.len(),
{
    if ms.len() == 0 {
        Seq::empty()
    } else {
        frame_bytes(ms[0].0, ms[0].1) + stream_of(ms.drop_first())
    }
}

/// What the framer gives back for a sent message.
pub open spec fn extracted_of(m: Sent) -> Extracted {
    (MessageHeader { message_type: m.0, payload_length: m.1.len() as u32 }, m.1)
}

/// What the framer gives back for sent messages, in order.
pub open spec fn extracted_all(ms: Seq<Sent>) -> Seq<Extracted> {
    ms.map_values(|m: Sent| extracted_of(m))
}

/// Extract messages from buffered bytes until none is complete: the
/// messages, the bytes left, and whether no step failed.
pub open spec fn drain(buf: Seq<u8>) -> (Seq<Extracted>, Seq<u8>, bool)
    decreases buf.len(),
{
    let (r, rest) = extract_step(buf);
    match r {
        Ok(Some(m)) => if rest.len() < buf.len() {
            let (more, left, ok) = drain(rest);
            (seq![m] + more, left, ok)
        } else {
            (seq![m], rest, true)
        },
        Ok(None) => (Seq::empty(), rest, true),
        Err(_) => (Seq::empty(), rest, false),
    }
}

/// Bytes left buffered once every complete message was taken: less than
/// the next frame, nothing when no message is left.
pub open spec fn partial_of(ms: Seq<Sent>, buf: Seq<u8>) -> bool {
    if ms.len() == 0 {
        buf.len() == 0
    } else {
        buf.len() < frame_bytes(ms[0].0, ms[0].1).len()
    }
}

proof fn lemma_stream_split(ms: Seq<Sent>, j: int)
    requires
        0 <= j <= ms.len(),
    ensures
        stream_of(ms) == stream_of(ms.take(j)) + stream_of(ms.skip(j)),
    decreases j,
{
    if j == 0 {
        assert(ms.take(0) =~= Seq::<Sent>::empty());
        assert(ms.skip(0) =~= ms);
        assert(stream_of(ms.take(0)) + stream_of(ms.skip(0)) =~= stream_of(ms));
    } else {
        let d = ms.drop_first();
        lemma_stream_split(d, j - 1);
        assert(ms.take(j).drop_first() =~= d.take(j - 1));
        assert(ms.take(j)[0] == ms[0]);
        assert(ms.skip(j) =~= d.skip(j - 1));
        assert(stream_of(ms.take(j)) =~= frame_bytes(ms[0].0, ms[0].1) + stream_of(d.take(j - 1)));
        assert(stream_of(ms) =~= stream_of(ms.take(j)) + stream_of(ms.skip(j)));
    }
}

/// Draining any prefix of a stream gives the messages whose frames it holds
/// whole, in order, with no error, and leaves the start of the next frame.
pub proof fn lemma_drain_prefix(ms: Seq<Sent>, k: int) -> (j: int)
    requires
        sendable(ms),
        0 <= k <= stream_of(ms).len(),
    ensures
        0 <= j <= ms.len(),
        drain(stream_of(ms).take(k)) == (
            extracted_all(ms.take(j)),
            stream_of(ms.skip(j)).take(k - stream_of(ms.take(j)).len()),
            true,
        ),
        stream_of(ms.take(j)).len() <= k,
        partial_of(ms.skip(j), stream_of(ms.skip(j)).take(k - stream_of(ms.take(j)).len())),
    decreases ms.len(),
{
    if ms.len() == 0 {
        let p = stream_of(ms).take(k);
        assert(p =~= Seq::<u8>::empty());
        assert(ms.take(0) =~= ms);
        assert(ms.skip(0) =~= ms);
        assert(extracted_all(ms.take(0)) =~= Seq::<Extracted>::empty());
        assert(stream_of(ms.skip(0)).take(k) =~= p);
        0
    } else {
        let t = ms[0].0;
        let payload = ms[0].1;
        let d = ms.drop_first();
        let f = frame_bytes(t, payload);
        assert(payload.len() <= MAX_PAYLOAD_SIZE);
        assert(sendable(d)) by {
            assert forall|i: int| 0 <= i < d.len() implies #[trigger] d[i].1.len() <= MAX_PAYLOAD_SIZE by {
                assert(d[i] == ms[i + 1]);
            }
        }
        assert(ms.take(0) =~= Seq::<Sent>::empty());
        assert(ms.skip(0) =~= ms);
        let p = stream_of(ms).take(k);
        if k < f.len() {
            assert(p =~= f.take(k));
            lemma_framer_waits_on_partial_frame(t, payload, k);
            assert(extracted_all(ms.take(0)) =~= Seq::<Extracted>::empty());
            0
        } else {
            let rest = stream_of(d).take(k - f.len());
            assert(p =~= f + rest);
            lemma_framer_extracts_frame(t, payload, rest);
            let j2 = lemma_drain_prefix(d, k - f.len());
            let j = j2 + 1;
            assert(ms.take(j).drop_first() =~= d.take(j2));
            assert(ms.take(j)[0] == ms[0]);
            assert(ms.skip(j) =~= d.skip(j2));
            assert(stream_of(ms.take(j)) =~= f + stream_of(d.take(j2)));
            assert(extracted_all(ms.take(j)) =~= seq![extracted_of(ms[0])] + extracted_all(d.take(j2)));
            j
        }
    }
}

/// Feed chunks to a framer holding `buf`, draining after each chunk: the
/// messages extracted in order, the bytes left, and whether no step failed.
pub open spec fn feed(buf: Seq<u8>, chunks: Seq<Seq<u8>>) -> (Seq<Extracted>, Seq<u8>, bool)
    decreases chunks.len(),
{
    if chunks.len() == 0 {
        (Seq::empty(), buf, true)
    } else {
        let (m1, b1, ok1) = drain(buf + chunks[0]);
        let (m2, b2, ok2) = feed(b1, chunks.drop_first());
        (m1 + m2, b2, ok1 && ok2)
    }
}

/// The bytes of chunks, one after the other.
pub open spec fn concat_chunks(chunks: Seq<Seq<u8>>) -> Seq<u8>
    decreases chunks.len(),
{
    if chunks.len() == 0 {
        Seq::empty()
    } else {
        chunks[0] + concat_chunks(chunks.drop_first())
    }
}

proof fn lemma_feed_from(ms: Seq<Sent>, buf: Seq<u8>, chunks: Seq<Seq<u8>>)
    requires
        sendable(ms),
        buf + concat_chunks(chunks) == stream_of(ms),
        partial_of(ms, buf),
    ensures
        feed(buf, chunks) == (extracted_all(ms), Seq::<u8>::empty(), true),
    decreases chunks.len(),
{
    if chunks.len() == 0 {
        assert(buf =~= stream_of(ms));
        if ms.len() > 0 {
            assert(stream_of(ms).len() >= frame_bytes(ms[0].0, ms[0].1).len());
        }
        assert(ms.len() == 0);
        assert(extracted_all(ms) =~= Seq::<Extracted>::empty());
    } else {
        let c = chunks[0];
        let k: int = (buf.len() + c.len()) as int;
        let s = stream_of(ms);
        assert(s =~= (buf + c) + concat_chunks(chunks.drop_first()));
        assert(s.take(k) =~= buf + c);
        let j = lemma_drain_prefix(ms, k);
        let consumed: int = stream_of(ms.take(j)).len() as int;
        let left = stream_of(ms.skip(j)).take(k - consumed);
        lemma_stream_split(ms, j);
        assert(sendable(ms.skip(j))) by {
            assert forall|i: int| 0 <= i < ms.skip(j).len() implies #[trigger] ms.skip(j)[i].1.len() <= MAX_PAYLOAD_SIZE by {
                assert(ms.skip(j)[i] == ms[i + j]);
            }
        }
        assert(left + concat_chunks(chunks.drop_first()) =~= stream_of(ms.skip(j))) by {
            assert(s.skip(consumed) =~= stream_of(ms.skip(j)));
            assert(stream_of(ms.skip(j)) =~= s.skip(consumed));
            assert(left =~= s.subrange(consumed, k));
            assert(s.skip(k) =~= concat_chunks(chunks.drop_first()));
            assert(s.skip(consumed) =~= s.subrange(consumed, k) + s.skip(k));
        }
        lemma_feed_from(ms.skip(j), left, chunks.drop_first());
        assert(ms.take(j) + ms.skip(j) =~= ms);
        assert(extracted_all(ms) =~= extracted_all(ms.take(j)) + extracted_all(ms.skip(j)));
        assert(extracted_all(ms.take(j)) + extracted_all(ms.skip(j)) =~= extracted_all(ms));
    }
}

/// However a stream of frames is cut into chunks, a framer that starts empty
/// and is drained after each chunk gives back exactly the messages sent, in
/// order, never fails, and ends with nothing buffered.
pub proof fn lemma_framer_any_chunking(ms: Seq<Sent>, chunks: Seq<Seq<u8>>)
    requires
        sendable(ms),
        concat_chunks(chunks) == stream_of(ms),
    ensures
        feed(Seq::empty(), chunks) == (extracted_all(ms), Seq::<u8>::empty(), true),
{
    assert(Seq::<u8>::empty() + concat_chunks(chunks) =~= stream_of(ms));
    if ms.len() > 0 {
        assert(frame_bytes(ms[0].0, ms[0].1).len() > 0);
    }
    lemma_feed_from(ms, Seq::empty(), chunks);
}

} // verus!
