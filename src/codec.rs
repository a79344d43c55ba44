//! The wire format: a length-prefixed string sub-format, and message frames
//! `[u16 topic length][topic][i32 payload length][payload]`, big-endian.
use bytes::BytesMut;
use vstd::prelude::*;
use vstd::slice::{slice_subrange, slice_to_vec};
use vstd::string::StringSliceAdditionalSpecFns;
use vstd::utf8::*;
use crate::buffer::{
    be16, be32, buffer_advance, buffer_bytes, buffer_contents, buffer_put_i32, buffer_put_slice,
    buffer_put_u16, buffer_with_capacity,
};

verus! {

broadcast use {encode_utf8_valid_utf8, encode_utf8_decode_utf8};

/// The largest topic, in encoded bytes, that a frame can carry.
pub const MAX_TOPIC_BYTES: usize = 0xFFFF;

/// The largest payload that the signed length field can describe.
pub const MAX_PAYLOAD_BYTES: usize = 0x7FFF_FFFF;

/// The unsigned big-endian number in `b[at]`, `b[at + 1]`.
pub open spec fn read_be16(b: Seq<u8>, at: int) -> int {
    b[at] as int * 0x100 + b[at + 1] as int
}

/// The unsigned big-endian number in the four bytes of `b` from `at`.
pub open spec fn read_be32(b: Seq<u8>, at: int) -> int {
    b[at] as int * 0x100_0000 + b[at + 1] as int * 0x1_0000 + b[at + 2] as int * 0x100
        + b[at + 3] as int
}

/// The string of the sub-format `[u16 len][len bytes]` at the front of `b`,
/// if the bytes are all there and are UTF-8.
pub open spec fn unpacked(b: Seq<u8>) -> Option<Seq<char>> {
    if b.len() >= 2 && b.len() >= 2 + read_be16(b, 0) && valid_utf8(
        b.subrange(2, 2 + read_be16(b, 0)),
    ) {
        Some(decode_utf8(b.subrange(2, 2 + read_be16(b, 0))))
    } else {
        None
    }
}

/// The sub-format encoding of a string.
pub open spec fn packed_str(s: Seq<char>) -> Seq<u8> {
    be16(encode_utf8(s).len()) + encode_utf8(s)
}

/// The frame of a message with topic `topic` and payload `payload`.
pub open spec fn frame(topic: Seq<char>, payload: Seq<u8>) -> Seq<u8> {
    packed_str(topic) + be32(payload.len()) + payload
}

/// The topic length that a buffer declares.
pub open spec fn topic_len(b: Seq<u8>) -> int {
    read_be16(b, 0)
}

/// Both length fields of the first frame have arrived.
pub open spec fn has_header(b: Seq<u8>) -> bool {
    b.len() >= 2 && b.len() >= 6 + topic_len(b)
}

/// The payload length field has its sign bit set.
pub open spec fn declares_negative(b: Seq<u8>) -> bool {
    b[2 + topic_len(b)] >= 0x80
}

/// The payload length that a buffer declares, read as unsigned.
pub open spec fn payload_len(b: Seq<u8>) -> int {
    read_be32(b, 2 + topic_len(b))
}

/// The length of the first frame.
pub open spec fn frame_len(b: Seq<u8>) -> int {
    6 + topic_len(b) + payload_len(b)
}

/// The decoder must wait for more bytes.
pub open spec fn waits(b: Seq<u8>) -> bool {
    !has_header(b) || (!declares_negative(b) && b.len() < frame_len(b))
}

/// A whole frame with a valid length is at the front of the buffer.
pub open spec fn has_frame(b: Seq<u8>) -> bool {
    has_header(b) && !declares_negative(b) && b.len() >= frame_len(b)
}

/// The topic bytes of the first frame.
pub open spec fn topic_bytes(b: Seq<u8>) -> Seq<u8> {
    b.subrange(2, 2 + topic_len(b))
}

/// The payload of the first frame.
pub open spec fn payload_bytes(b: Seq<u8>) -> Seq<u8> {
    b.subrange(6 + topic_len(b), frame_len(b))
}

/// A string packed with the sub-format reads back as itself, whatever follows.
pub proof fn lemma_packed_str_round_trip(s: Seq<char>, rest: Seq<u8>)
    requires
        encode_utf8(s).len() <= MAX_TOPIC_BYTES,
    ensures
        unpacked(packed_str(s) + rest) == Some(s),
{
    let t = encode_utf8(s);
    let b = packed_str(s) + rest;
    assert(read_be16(b, 0) == t.len());
    assert(b.subrange(2, 2 + t.len() as int) =~= t);
}

/// The bytes of a frame, followed by anything, decode to that frame's message
/// and leave exactly what followed.
pub proof fn lemma_frame_round_trip(topic: Seq<char>, payload: Seq<u8>, rest: Seq<u8>)
    requires
        encode_utf8(topic).len() <= MAX_TOPIC_BYTES,
        payload.len() <= MAX_PAYLOAD_BYTES,
    ensures
        ({
            let b = frame(topic, payload) + rest;
            &&& has_frame(b)
            &&& frame_len(b) == frame(topic, payload).len()
            &&& valid_utf8(topic_bytes(b))
            &&& decode_utf8(topic_bytes(b)) == topic
            &&& payload_bytes(b) == payload
            &&& b.skip(frame_len(b)) == rest
        }),
{
    let t = encode_utf8(topic);
    let tl = t.len() as int;
    let f = frame(topic, payload);
    let b = f + rest;
    let n = payload.len();
    let h = be32(n);
    lemma_be16_read(t.len());
    lemma_be32_read(n);
    assert(b[0] == be16(t.len())[0] && b[1] == be16(t.len())[1]);
    assert(topic_len(b) == tl);
    assert(b[2 + tl] == h[0] && b[3 + tl] == h[1] && b[4 + tl] == h[2] && b[5 + tl] == h[3]);
    assert(payload_len(b) == n);
    assert(topic_bytes(b) =~= t);
    assert(payload_bytes(b) =~= payload);
    assert(b.skip(frame_len(b)) =~= rest);
}

proof fn lemma_be16_read(n: nat)
    requires
        n <= 0xFFFF,
    ensures
        read_be16(be16(n), 0) == n,
{
}

proof fn lemma_be32_read(n: nat)
    requires
        n <= 0x7FFF_FFFF,
    ensures
        read_be32(be32(n), 0) == n,
        be32(n)[0] < 0x80,
{
}

/// Fragmentation: of a stream that starts with a frame, any prefix that has
/// arrived so far either makes the decoder wait, consuming nothing, or (once
/// the whole frame is there) yields exactly that frame's message and leaves
/// exactly the part of the stream after it.
pub proof fn lemma_decode_prefix(topic: Seq<char>, payload: Seq<u8>, rest: Seq<u8>, k: int)
    requires
        encode_utf8(topic).len() <= MAX_TOPIC_BYTES,
        payload.len() <= MAX_PAYLOAD_BYTES,
        0 <= k <= frame(topic, payload).len() + rest.len(),
    ensures
        ({
            let f = frame(topic, payload);
            let b = (f + rest).take(k);
            &&& k < f.len() ==> waits(b)
            &&& k >= f.len() ==> {
                &&& has_frame(b)
                &&& valid_utf8(topic_bytes(b))
                &&& decode_utf8(topic_bytes(b)) == topic
                &&& payload_bytes(b) == payload
                &&& b.skip(frame_len(b)) == rest.take(k - f.len())
            }
        }),
{
    let f = frame(topic, payload);
    let whole = f + rest;
    let b = whole.take(k);
    lemma_frame_round_trip(topic, payload, rest);
    if k >= 2 {
        assert(topic_len(b) == topic_len(whole));
    }
    if has_header(b) {
        assert(b[2 + topic_len(b)] == whole[2 + topic_len(whole)]);
        assert(payload_len(b) == payload_len(whole));
    }
    if k >= f.len() {
        assert(topic_bytes(b) =~= topic_bytes(whole));
        assert(payload_bytes(b) =~= payload_bytes(whole));
        assert(b.skip(frame_len(b)) =~= rest.take(k - f.len()));
    }
}

/// Relies on `String::from_utf8`: it succeeds exactly on valid UTF-8, and the
/// string then holds the characters those bytes encode.
#[verifier::external_body]
fn string_from_utf8(bytes: Vec<u8>) -> (r: Option<String>)
    ensures
        r is Some <==> valid_utf8(bytes@),
        r matches Some(s) ==> s@ == decode_utf8(bytes@),
{
    String::from_utf8(bytes).ok()
}

/// Appends the sub-format encoding `[u16 len][len bytes]` of `string`.
pub fn pack_str(string: &str, buf: &mut BytesMut)
    requires
        string.spec_bytes().len() <= MAX_TOPIC_BYTES,
        buffer_contents(*old(buf)).len() + 2 + string.spec_bytes().len() <= usize::MAX,
    ensures
        buffer_contents(*final(buf)) == buffer_contents(*old(buf)) + packed_str(string@),
{
    let bytes = string.as_bytes();
    buffer_put_u16(buf, bytes.len() as u16);
    buffer_put_slice(buf, bytes);
    assert(buffer_contents(*buf) =~= buffer_contents(*old(buf)) + packed_str(string@));
}

/// Reads the sub-format string at the front of `data`: `None` when it is
/// incomplete or not UTF-8.
pub fn unpack_string(data: &[u8]) -> (r: Option<String>)
    ensures
        r is Some <==> unpacked(data@) is Some,
        r matches Some(s) ==> unpacked(data@) == Some(s@),
{
    if data.len() < 2 {
        return None;
    }
    let len = (data[0] as usize) * 0x100 + data[1] as usize;
    if data.len() < 2 + len {
        return None;
    }
    let utf8_data = slice_to_vec(slice_subrange(data, 2, 2 + len));
    string_from_utf8(utf8_data)
}

/// A message: a topic and an opaque payload.
#[derive(Clone, Debug)]
pub struct Message {
    pub name: String,
    pub data: Vec<u8>,
}

impl Message {
    /// The message fits a frame: the topic's length field is 16 bits and the
    /// payload's is a non-negative 32-bit signed number.
    pub open spec fn fits(&self) -> bool {
        encode_utf8(self.name@).len() <= MAX_TOPIC_BYTES && self.data@.len() <= MAX_PAYLOAD_BYTES
    }

    /// Encodes the message as one frame.
    pub fn pack(self) -> (r: BytesMut)
        requires
            self.fits(),
        ensures
            buffer_contents(r) == frame(self.name@, self.data@),
    {
        let name_len = self.name.as_str().len();
        let mut buf = buffer_with_capacity(6 + name_len + self.data.len());
        pack_str(self.name.as_str(), &mut buf);
        buffer_put_i32(&mut buf, self.data.len() as i32);
        buffer_put_slice(&mut buf, self.data.as_slice());
        buf
    }
}

/// Why a frame could not be decoded.
#[derive(Clone, Copy, Debug, PartialEq, Eq, Structural)]
pub enum DecodeError {
    /// The topic bytes are not UTF-8.
    InvalidUtf8,
    /// The payload length field is negative.
    NegativeLength,
}

/// The incremental frame decoder. It keeps no state of its own: what it has
/// not consumed stays in the caller's buffer.
pub struct MessageDecoder;

impl MessageDecoder {
    /// Takes the first frame off the front of `src`, if all of it is there.
    pub fn decode(&mut self, src: &mut BytesMut) -> (r: Result<Option<Message>, DecodeError>)
        ensures
            ({
                let b = buffer_contents(*old(src));
                &&& waits(b) ==> (r matches Ok(None) && buffer_contents(*final(src)) == b)
                &&& has_header(b) && declares_negative(b) ==> r == Err::<Option<Message>, _>(
                    DecodeError::NegativeLength,
                ) && buffer_contents(*final(src)) == b
                &&& has_frame(b) ==> buffer_contents(*final(src)) == b.skip(frame_len(b))
                &&& has_frame(b) && valid_utf8(topic_bytes(b)) ==> (r matches Ok(Some(m)) && m.name@
                    == decode_utf8(topic_bytes(b)) && m.data@ == payload_bytes(b))
                &&& has_frame(b) && !valid_utf8(topic_bytes(b)) ==> r == Err::<Option<Message>, _>(
                    DecodeError::InvalidUtf8,
                )
            }),
    {
        let data = buffer_bytes(src);
        let n = data.len();
        if n < 2 {
            return Ok(None);
        }
        let topic_len = (data[0] as usize) * 0x100 + data[1] as usize;
        if n < 6 + topic_len {
            return Ok(None);
        }
        if data[2 + topic_len] >= 0x80 {
            return Err(DecodeError::NegativeLength);
        }
        let payload_len = (data[2 + topic_len] as usize) * 0x100_0000 + (data[3 + topic_len] as usize)
            * 0x1_0000 + (data[4 + topic_len] as usize) * 0x100 + data[5 + topic_len] as usize;
        let frame_len = 6 + topic_len + payload_len;
        if n < frame_len {
            return Ok(None);
        }
        let topic = slice_to_vec(slice_subrange(data, 2, 2 + topic_len));
        let payload = slice_to_vec(slice_subrange(data, 6 + topic_len, frame_len));
        buffer_advance(src, frame_len);
        match string_from_utf8(topic) {
            Some(name) => Ok(Some(Message { name, data: payload })),
            None => Err(DecodeError::InvalidUtf8),
        }
    }
}

} // verus!
