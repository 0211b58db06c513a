//! Frames: a message on the wire is the length of its wire form, in four
//! bytes big-endian, and then that form. A frame holds at most 16 MiB.
//!
//! Frames are built in a `bytes::BytesMut`.

use crate::error::{ErrorView, WindError};
use crate::protocol::{Message, MessageView};
use crate::text::{decimal, decimal_text, join};
use crate::wire::{be_bytes, lemma_parse_be, lemma_pow256, parse_be, pow256, read_be};
use crate::wire_message::{
    lemma_parse_id, lemma_parse_payload, lemma_parse_u64, parse_id, parse_payload, parse_u64,
    read_payload, ser_id, ser_payload, ser_u64, write_payload,
};
use vstd::prelude::*;
use vstd::slice::slice_subrange;
use vstd::string::StringExecFns;

verus! {

/// `bytes::BytesMut`, a growable buffer of bytes. The proofs see nothing
/// inside it.
#[verifier::external_type_specification]
#[verifier::external_body]
pub struct ExBytesMut(bytes::BytesMut);

/// The greatest length of the wire form of a message: 16 MiB.
pub const MAX_MESSAGE_SIZE: usize = 16777216;

/// The bytes that a buffer holds, in order.
pub uninterp spec fn buffer_bytes(b: bytes::BytesMut) -> Seq<u8>;

/// `BytesMut::with_capacity`: a buffer that holds nothing.
#[verifier::external_body]
fn buffer_with_capacity(capacity: usize) -> (b: bytes::BytesMut)
    requires
        capacity <= 0x4000_0000,
    ensures
        buffer_bytes(b) =~= Seq::empty(),
{
    bytes::BytesMut::with_capacity(capacity)
}

/// `BufMut::put_u32` on a `BytesMut`: the four bytes of the number are
/// appended, most significant first.
#[verifier::external_body]
fn buffer_put_u32(b: &mut bytes::BytesMut, n: u32)
    requires
        buffer_bytes(*old(b)).len() <= 0x4000_0000,
    ensures
        buffer_bytes(*final(b)) == buffer_bytes(*old(b)) + be_bytes(n as nat, 4),
{
    bytes::BufMut::put_u32(b, n);
}

/// `BytesMut::extend_from_slice`: the bytes are appended.
#[verifier::external_body]
fn buffer_extend(b: &mut bytes::BytesMut, data: &[u8])
    requires
        buffer_bytes(*old(b)).len() + data@.len() <= 0x4000_0000,
    ensures
        buffer_bytes(*final(b)) == buffer_bytes(*old(b)) + data@,
{
    b.extend_from_slice(data);
}

/// The wire form of a message: its identifier, its time stamp, its payload.
pub open spec fn ser_message(m: Message) -> Seq<u8> {
    ser_id(m.id) + ser_u64(m.timestamp_us) + ser_payload(m.payload)
}

/// What reading a message from the front of `bytes` gives.
pub open spec fn parse_message(bytes: Seq<u8>) -> Option<(MessageView, Seq<u8>)> {
    match parse_id(bytes) {
        Some((id, r1)) => match parse_u64(r1) {
            Some((timestamp_us, r2)) => match parse_payload(r2) {
                Some((payload, r3)) => Some((MessageView { id, timestamp_us, payload }, r3)),
                None => None,
            },
            None => None,
        },
        None => None,
    }
}

/// The message that a body is the wire form of, if it is one: the body must
/// hold a message and nothing after it.
pub open spec fn body_message(body: Seq<u8>) -> Option<MessageView> {
    match parse_message(body) {
        Some((m, rest)) => if rest.len() == 0 {
            Some(m)
        } else {
            None
        },
        None => None,
    }
}

/// The frame around a body: its length in four bytes, then the body.
pub open spec fn frame(body: Seq<u8>) -> Seq<u8> {
    be_bytes(body.len(), 4) + body
}

/// The error for a message or frame that is too large.
pub open spec fn too_large(len: nat) -> ErrorView {
    ErrorView::Protocol("Message too large: "@ + decimal_text(len) + " bytes"@)
}

/// The error for bytes that are no message.
pub open spec fn malformed() -> ErrorView {
    ErrorView::Serialization("malformed message"@)
}

/// The error for a frame that ends before its length says.
pub open spec fn truncated() -> ErrorView {
    ErrorView::Io("unexpected end of frame"@)
}

/// What decoding a frame gives: the message, or the error.
///
/// A frame of less than four bytes is truncated. A length above 16 MiB is
/// refused before anything else is looked at. A frame with fewer bytes than
/// its length says is truncated. The body must be the wire form of a
/// message, with nothing after it in the frame.
pub open spec fn decoded(bytes: Seq<u8>) -> Result<MessageView, ErrorView> {
    match parse_be(bytes, 4) {
        None => Err(truncated()),
        Some((n, rest)) => if n > MAX_MESSAGE_SIZE {
            Err(too_large(n))
        } else if rest.len() < n {
            Err(truncated())
        } else if rest.len() > n {
            Err(malformed())
        } else {
            match body_message(rest) {
                Some(m) => Ok(m),
                None => Err(malformed()),
            }
        },
    }
}

/// The encoder and decoder of frames.
pub struct MessageCodec;

fn too_large_error(len: usize) -> (r: WindError)
    ensures
        r@ == too_large(len as nat),
{
    let count = decimal(len as u64);
    let head = join("Message too large: ", count.as_str());
    WindError::Protocol(join(head.as_str(), " bytes"))
}

impl MessageCodec {
    /// The wire form of a message, without the frame.
    pub fn serialize(msg: &Message) -> (r: Vec<u8>)
        ensures
            r@ == ser_message(*msg),
    {
        let mut out: Vec<u8> = Vec::new();
        crate::wire::write_be(&mut out, msg.id, 16);
        crate::wire::write_be(&mut out, msg.timestamp_us as u128, 8);
        write_payload(&mut out, &msg.payload);
        assert(out@ =~= ser_message(*msg));
        out
    }

    /// Encodes a message as a frame. Fails exactly where the wire form of
    /// the message is longer than 16 MiB.
    pub fn encode(msg: &Message) -> (r: Result<bytes::BytesMut, WindError>)
        ensures
            match r {
                Ok(buf) => ser_message(*msg).len() <= MAX_MESSAGE_SIZE && buffer_bytes(buf)
                    == frame(ser_message(*msg)),
                Err(e) => ser_message(*msg).len() > MAX_MESSAGE_SIZE && e@ == too_large(
                    ser_message(*msg).len(),
                ),
            },
    {
        let data = MessageCodec::serialize(msg);
        if data.len() > MAX_MESSAGE_SIZE {
            return Err(too_large_error(data.len()));
        }
        let mut buf = buffer_with_capacity(4 + data.len());
        buffer_put_u32(&mut buf, data.len() as u32);
        proof {
            crate::wire::lemma_be_len(data@.len(), 4);
        }
        buffer_extend(&mut buf, data.as_slice());
        Ok(buf)
    }

    /// Checks the length that the header of a frame announces, before the
    /// body is read or room is made for it. Returns the length, or refuses
    /// one above 16 MiB.
    pub fn accept_length(len: u32) -> (r: Result<usize, WindError>)
        ensures
            match r {
                Ok(n) => n == len && len <= MAX_MESSAGE_SIZE,
                Err(e) => len > MAX_MESSAGE_SIZE && e@ == too_large(len as nat),
            },
    {
        if len as usize > MAX_MESSAGE_SIZE {
            Err(too_large_error(len as usize))
        } else {
            Ok(len as usize)
        }
    }

    /// Decodes the body of a frame. Succeeds exactly where the body is the
    /// wire form of a message.
    pub fn decode_body(data: &[u8]) -> (r: Result<Message, WindError>)
        ensures
            match body_message(data@) {
                Some(m) => r is Ok && r->Ok_0@ == m,
                None => r is Err && r->Err_0@ == malformed(),
            },
    {
        assert(data@.skip(0) =~= data@);
        let parsed = MessageCodec::read_message(data);
        match parsed {
            Some((msg, end)) => {
                if end == data.len() {
                    Ok(msg)
                } else {
                    Err(WindError::Serialization(String::from_str("malformed message")))
                }
            },
            None => Err(WindError::Serialization(String::from_str("malformed message"))),
        }
    }

    fn read_message(data: &[u8]) -> (r: Option<(Message, usize)>)
        ensures
            match parse_message(data@) {
                Some((m, rest)) => r is Some && r->Some_0.0@ == m && r->Some_0.1 <= data@.len()
                    && rest == data@.skip(r->Some_0.1 as int),
                None => r is None,
            },
    {
        assert(data@.skip(0) =~= data@);
        proof {
            lemma_pow256();
        }
        let (id, after_id) = match read_be(data, 0, 16) {
            Some(x) => x,
            None => {
                return None;
            },
        };
        let (timestamp, after_stamp) = match read_be(data, after_id, 8) {
            Some(x) => x,
            None => {
                return None;
            },
        };
        let (payload, after_payload) = match read_payload(data, after_stamp) {
            Some(x) => x,
            None => {
                return None;
            },
        };
        Some((Message { id, timestamp_us: timestamp as u64, payload }, after_payload))
    }

    /// Decodes a frame that is held in memory.
    pub fn decode(bytes: &[u8]) -> (r: Result<Message, WindError>)
        ensures
            match decoded(bytes@) {
                Ok(m) => r is Ok && r->Ok_0@ == m,
                Err(e) => r is Err && r->Err_0@ == e,
            },
    {
        assert(bytes@.skip(0) =~= bytes@);
        proof {
            lemma_pow256();
        }
        match read_be(bytes, 0, 4) {
            None => Err(WindError::Io(String::from_str("unexpected end of frame"))),
            Some((n, start)) => {
                let left = bytes.len() - start;
                if n > MAX_MESSAGE_SIZE as u128 {
                    Err(too_large_error(n as usize))
                } else if left < n as usize {
                    Err(WindError::Io(String::from_str("unexpected end of frame")))
                } else if left > n as usize {
                    Err(WindError::Serialization(String::from_str("malformed message")))
                } else {
                    let body = slice_subrange(bytes, start, bytes.len());
                    assert(body@ =~= bytes@.skip(start as int));
                    MessageCodec::decode_body(body)
                }
            },
        }
    }
}

/// A message that was written is read back, and what followed it is left.
pub proof fn lemma_parse_message(m: Message, rest: Seq<u8>)
    requires
        ser_message(m).len() < pow256(8),
    ensures
        parse_message(ser_message(m) + rest) == Some((m@, rest)),
{
    let r2 = ser_payload(m.payload) + rest;
    let r1 = ser_u64(m.timestamp_us) + r2;
    assert(ser_message(m) + rest =~= ser_id(m.id) + r1);
    lemma_parse_id(m.id, r1);
    lemma_parse_u64(m.timestamp_us, r2);
    lemma_parse_payload(m.payload, rest);
}

/// Decoding what was encoded gives the message back: for every message
/// whose wire form fits in a frame, the frame decodes to the message.
pub proof fn law_round_trip(m: Message)
    requires
        ser_message(m).len() <= MAX_MESSAGE_SIZE,
    ensures
        body_message(ser_message(m)) == Some(m@),
        decoded(frame(ser_message(m))) == Ok::<MessageView, ErrorView>(m@),
{
    lemma_pow256();
    let body = ser_message(m);
    lemma_parse_message(m, Seq::empty());
    assert(body + Seq::<u8>::empty() =~= body);
    lemma_parse_be(body.len(), 4, body);
}

} // verus!
