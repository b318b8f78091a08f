//! The basic eRPC message codec: little-endian integers, length-prefixed
//! binary and string fields, and the eight-byte message header.

use crate::error::{CodecError, ErpcError, ErpcResult};
use std::string::FromUtf8Error;
use vstd::prelude::*;
use vstd::string::StringSliceAdditionalSpecFns;
use vstd::utf8::{decode_utf8, valid_utf8};

verus! {

/// Version carried in the top byte of every message header.
pub const BASIC_CODEC_VERSION: u8 = 1;

/// Kind of an eRPC message.
#[derive(Debug, Clone, Copy, PartialEq, Eq, Structural)]
pub enum MessageType {
    Invocation,
    Oneway,
    Reply,
    Notification,
}

impl MessageType {
    /// Wire code of the message type.
    pub open spec fn code(self) -> u8 {
        match self {
            MessageType::Invocation => 0,
            MessageType::Oneway => 1,
            MessageType::Reply => 2,
            MessageType::Notification => 3,
        }
    }

    /// The message type with the given wire code, if any.
    pub open spec fn from_code(code: u8) -> Option<MessageType> {
        if code == 0 {
            Some(MessageType::Invocation)
        } else if code == 1 {
            Some(MessageType::Oneway)
        } else if code == 2 {
            Some(MessageType::Reply)
        } else if code == 3 {
            Some(MessageType::Notification)
        } else {
            None
        }
    }

    /// Returns the wire code.
    pub fn to_u8(self) -> (r: u8)
        ensures
            r == self.code(),
    {
        match self {
            MessageType::Invocation => 0,
            MessageType::Oneway => 1,
            MessageType::Reply => 2,
            MessageType::Notification => 3,
        }
    }

    /// Decodes a wire code.
    pub fn from_u8(code: u8) -> (r: Option<MessageType>)
        ensures
            r == Self::from_code(code),
    {
        if code == 0 {
            Some(MessageType::Invocation)
        } else if code == 1 {
            Some(MessageType::Oneway)
        } else if code == 2 {
            Some(MessageType::Reply)
        } else if code == 3 {
            Some(MessageType::Notification)
        } else {
            None
        }
    }
}

/// Header fields of an eRPC message.
#[derive(Debug, Clone, Copy, PartialEq, Eq, Structural)]
pub struct MessageInfo {
    pub message_type: MessageType,
    pub service: u8,
    pub request: u8,
    pub sequence: u32,
}

impl MessageInfo {
    /// Builds a header.
    pub fn new(message_type: MessageType, service: u8, request: u8, sequence: u32) -> (r: Self)
        ensures
            r == (MessageInfo { message_type, service, request, sequence }),
    {
        MessageInfo { message_type, service, request, sequence }
    }
}

/// Bookkeeping of one client request.
#[derive(Debug, Clone, Copy, PartialEq, Eq)]
pub struct RequestContext {
    pub sequence: u32,
    pub service_id: Option<u32>,
    pub is_oneway: bool,
}

impl RequestContext {
    /// A request without a service identifier.
    pub fn new(sequence: u32, is_oneway: bool) -> (r: Self)
        ensures
            r.sequence == sequence,
            r.service_id == None::<u32>,
            r.is_oneway == is_oneway,
    {
        RequestContext { sequence, service_id: None, is_oneway }
    }

    /// A request with an optional service identifier.
    pub fn with_service(sequence: u32, service_id: Option<u32>, is_oneway: bool) -> (r: Self)
        ensures
            r.sequence == sequence,
            r.service_id == service_id,
            r.is_oneway == is_oneway,
    {
        RequestContext { sequence, service_id, is_oneway }
    }
}

/// Little-endian bytes of a 16-bit value.
pub open spec fn le16(v: u16) -> Seq<u8> {
    seq![(v & 0xffu16) as u8, (v >> 8u16) as u8]
}

/// Little-endian bytes of a 32-bit value.
pub open spec fn le32(v: u32) -> Seq<u8> {
    seq![
        (v & 0xffu32) as u8,
        ((v >> 8u32) & 0xffu32) as u8,
        ((v >> 16u32) & 0xffu32) as u8,
        (v >> 24u32) as u8,
    ]
}

/// The 16-bit value whose little-endian bytes are `b0, b1`.
pub open spec fn from_le16(b0: u8, b1: u8) -> u16 {
    (b0 as u16) | ((b1 as u16) << 8u16)
}

/// The 32-bit value whose little-endian bytes are the first four of `s`.
pub open spec fn from_le32(s: Seq<u8>) -> u32 {
    (s[0] as u32) | ((s[1] as u32) << 8u32) | ((s[2] as u32) << 16u32) | ((s[3] as u32) << 24u32)
}

/// Decoding the little-endian bytes of a 16-bit value gives the value back.
pub proof fn lemma_le16_roundtrip(v: u16)
    ensures
        le16(v).len() == 2,
        from_le16(le16(v)[0], le16(v)[1]) == v,
{
    assert((((v & 0xffu16) as u8) as u16) | ((((v >> 8u16) as u8) as u16) << 8u16) == v)
        by (bit_vector);
}

/// Decoding the little-endian bytes of a 32-bit value gives the value back.
pub proof fn lemma_le32_roundtrip(v: u32)
    ensures
        le32(v).len() == 4,
        from_le32(le32(v)) == v,
{
    assert((((v & 0xffu32) as u8) as u32) | (((((v >> 8u32) & 0xffu32) as u8) as u32) << 8u32)
        | (((((v >> 16u32) & 0xffu32) as u8) as u32) << 16u32) | ((((v >> 24u32) as u8) as u32)
        << 24u32) == v) by (bit_vector);
}

/// Encoding the value decoded from two bytes gives the bytes back.
pub proof fn lemma_from_le16_roundtrip(b0: u8, b1: u8)
    ensures
        le16(from_le16(b0, b1)) == seq![b0, b1],
{
    let v = from_le16(b0, b1);
    assert(((((b0 as u16) | ((b1 as u16) << 8u16)) & 0xffu16) as u8) == b0) by (bit_vector);
    assert(((((b0 as u16) | ((b1 as u16) << 8u16)) >> 8u16) as u8) == b1) by (bit_vector);
    assert(le16(v) =~= seq![b0, b1]);
}

/// Bytes of the message header for `info`: type, request, service, version,
/// then the sequence number in little-endian order.
pub open spec fn encode_header(info: MessageInfo) -> Seq<u8> {
    seq![info.message_type.code(), info.request, info.service, BASIC_CODEC_VERSION] + le32(
        info.sequence,
    )
}

/// What reading a message header from `s` yields.
pub open spec fn decode_header(s: Seq<u8>) -> Result<MessageInfo, CodecError> {
    if s.len() < 4 {
        Err(CodecError::BufferUnderflow)
    } else if s[3] != BASIC_CODEC_VERSION {
        Err(CodecError::InvalidVersion(s[3]))
    } else if MessageType::from_code(s[0]) is None {
        Err(CodecError::InvalidMessageType(s[0]))
    } else if s.len() < 8 {
        Err(CodecError::BufferUnderflow)
    } else {
        Ok(
            MessageInfo {
                message_type: MessageType::from_code(s[0]).unwrap(),
                service: s[2],
                request: s[1],
                sequence: from_le32(s.subrange(4, 8)),
            },
        )
    }
}

/// A header decodes to the information it was encoded from, whatever follows it.
pub proof fn lemma_header_roundtrip(info: MessageInfo, rest: Seq<u8>)
    ensures
        encode_header(info).len() == 8,
        decode_header(encode_header(info) + rest) == Ok::<MessageInfo, CodecError>(info),
{
    lemma_le32_roundtrip(info.sequence);
    let s = encode_header(info) + rest;
    assert(s.subrange(4, 8) =~= le32(info.sequence));
}

/// Length prefix followed by the bytes of a binary or string field.
pub open spec fn encode_binary(data: Seq<u8>) -> Seq<u8> {
    le32(data.len() as u32) + data
}

/// Wrapper of `String::from_utf8`: `Ok` exactly for valid UTF-8, holding its characters.
#[verifier::external_body]
fn string_from_utf8(bytes: Vec<u8>) -> (r: Result<String, FromUtf8Error>)
    ensures
        r is Ok <==> valid_utf8(bytes@),
        r matches Ok(s) ==> s@ == decode_utf8(bytes@),
{
    String::from_utf8(bytes)
}

/// Declaration of std's UTF-8 decoding error.
#[verifier::external_type_specification]
#[verifier::external_body]
pub struct ExFromUtf8Error(FromUtf8Error);

/// Copies a byte slice into a vector.
pub fn copy_bytes(data: &[u8]) -> (r: Vec<u8>)
    ensures
        r@ == data@,
{
    let mut out: Vec<u8> = Vec::with_capacity(data.len());
    let mut i: usize = 0;
    while i < data.len()
        invariant
            i <= data@.len(),
            out@ == data@.take(i as int),
        decreases data.len() - i,
    {
        out.push(data[i]);
        i = i + 1;
        proof {
            assert(out@ =~= data@.take(i as int));
        }
    }
    proof {
        assert(data@.take(data@.len() as int) =~= data@);
    }
    out
}

/// A message buffer with a read cursor. Writes append at the end; reads
/// consume from the cursor.
pub struct BasicCodec {
    buffer: Vec<u8>,
    cursor: usize,
}

impl BasicCodec {
    /// The read cursor lies within the buffer.
    pub closed spec fn wf(&self) -> bool {
        self.cursor <= self.buffer@.len()
    }

    /// All bytes held by the codec.
    pub closed spec fn bytes(&self) -> Seq<u8> {
        self.buffer@
    }

    /// Bytes not yet read.
    pub closed spec fn remaining(&self) -> Seq<u8> {
        self.buffer@.skip(self.cursor as int)
    }

    /// An empty codec.
    pub fn new() -> (r: Self)
        ensures
            r.bytes() == Seq::<u8>::empty(),
            r.remaining() == Seq::<u8>::empty(),
            r.wf(),
    {
        let r = BasicCodec { buffer: Vec::new(), cursor: 0 };
        proof {
            assert(r.buffer@.skip(0) =~= Seq::<u8>::empty());
        }
        r
    }

    /// A codec that reads `data` from its start.
    pub fn from_data(data: Vec<u8>) -> (r: Self)
        ensures
            r.bytes() == data@,
            r.remaining() == data@,
            r.wf(),
    {
        let r = BasicCodec { buffer: data, cursor: 0 };
        proof {
            assert(r.buffer@.skip(0) =~= data@);
        }
        r
    }

    /// The bytes held by the codec.
    pub fn as_bytes(&self) -> (r: &[u8])
        ensures
            r@ == self.bytes(),
    {
        self.buffer.as_slice()
    }

    /// Number of bytes held.
    pub fn len(&self) -> (r: usize)
        ensures
            r == self.bytes().len(),
    {
        self.buffer.len()
    }

    /// Number of bytes not yet read.
    pub fn remaining_len(&self) -> (r: usize)
        requires
            self.wf(),
        ensures
            r == self.remaining().len(),
    {
        self.buffer.len() - self.cursor
    }

    /// Discards all bytes.
    pub fn reset(&mut self)
        requires
            old(self).wf(),
        ensures
            final(self).wf(),
            final(self).bytes() == Seq::<u8>::empty(),
            final(self).remaining() == Seq::<u8>::empty(),
    {
        self.buffer = Vec::new();
        self.cursor = 0;
        proof {
            assert(self.buffer@.skip(0) =~= Seq::<u8>::empty());
        }
    }

    fn append(&mut self, data: &[u8])
        requires
            old(self).wf(),
        ensures
            final(self).wf(),
            final(self).bytes() == old(self).bytes() + data@,
            final(self).remaining() == old(self).remaining() + data@,
    {
        let mut i: usize = 0;
        let ghost start = self.buffer@;
        while i < data.len()
            invariant
                i <= data@.len(),
                self.cursor <= start.len(),
                self.cursor == old(self).cursor,
                start == old(self).buffer@,
                self.buffer@ == start + data@.take(i as int),
            decreases data.len() - i,
        {
            self.buffer.push(data[i]);
            i = i + 1;
            proof {
                assert(self.buffer@ =~= start + data@.take(i as int));
            }
        }
        proof {
            assert(data@.take(data@.len() as int) =~= data@);
            assert(self.buffer@.skip(self.cursor as int) =~= start.skip(self.cursor as int)
                + data@);
        }
    }

    /// Appends one byte.
    pub fn write_uint8(&mut self, value: u8) -> (r: ErpcResult<()>)
        requires
            old(self).wf(),
        ensures
            final(self).wf(),
            r is Ok,
            final(self).bytes() == old(self).bytes().push(value),
            final(self).remaining() == old(self).remaining().push(value),
    {
        let ghost start = self.buffer@;
        self.buffer.push(value);
        proof {
            assert(self.buffer@.skip(self.cursor as int) =~= start.skip(self.cursor as int).push(
                value,
            ));
        }
        Ok(())
    }

    /// Appends a 16-bit value in little-endian order.
    pub fn write_uint16(&mut self, value: u16) -> (r: ErpcResult<()>)
        requires
            old(self).wf(),
        ensures
            final(self).wf(),
            r is Ok,
            final(self).bytes() == old(self).bytes() + le16(value),
            final(self).remaining() == old(self).remaining() + le16(value),
    {
        let bytes: [u8; 2] = [(value & 0xffu16) as u8, (value >> 8u16) as u8];
        proof {
            assert(bytes@ =~= le16(value));
        }
        self.append(&bytes);
        Ok(())
    }

    /// Appends a 32-bit value in little-endian order.
    pub fn write_uint32(&mut self, value: u32) -> (r: ErpcResult<()>)
        requires
            old(self).wf(),
        ensures
            final(self).wf(),
            r is Ok,
            final(self).bytes() == old(self).bytes() + le32(value),
            final(self).remaining() == old(self).remaining() + le32(value),
    {
        let bytes: [u8; 4] = [
            (value & 0xffu32) as u8,
            ((value >> 8u32) & 0xffu32) as u8,
            ((value >> 16u32) & 0xffu32) as u8,
            (value >> 24u32) as u8,
        ];
        proof {
            assert(bytes@ =~= le32(value));
        }
        self.append(&bytes);
        Ok(())
    }

    /// Appends raw bytes without a length prefix.
    pub fn write_bytes(&mut self, data: &[u8]) -> (r: ErpcResult<()>)
        requires
            old(self).wf(),
        ensures
            final(self).wf(),
            r is Ok,
            final(self).bytes() == old(self).bytes() + data@,
            final(self).remaining() == old(self).remaining() + data@,
    {
        self.append(data);
        Ok(())
    }

    /// Appends a length-prefixed binary field.
    pub fn write_binary(&mut self, data: &[u8]) -> (r: ErpcResult<()>)
        requires
            old(self).wf(),
        ensures
            final(self).wf(),
            data@.len() <= u32::MAX ==> {
                &&& r is Ok
                &&& final(self).bytes() == old(self).bytes() + encode_binary(data@)
                &&& final(self).remaining() == old(self).remaining() + encode_binary(data@)
            },
            data@.len() > u32::MAX ==> {
                &&& r == Err::<(), ErpcError>(ErpcError::Codec(CodecError::LengthOverflow))
                &&& final(self).bytes() == old(self).bytes()
                &&& final(self).remaining() == old(self).remaining()
            },
    {
        if data.len() > 0xffff_ffffusize {
            return Err(ErpcError::Codec(CodecError::LengthOverflow));
        }
        let _ = self.write_uint32(data.len() as u32);
        self.append(data);
        proof {
            assert(old(self).bytes() + le32(data@.len() as u32) + data@ =~= old(self).bytes()
                + encode_binary(data@));
            assert(old(self).remaining() + le32(data@.len() as u32) + data@ =~= old(self).remaining() + encode_binary(data@));
        }
        Ok(())
    }

    /// Appends a length-prefixed UTF-8 string field.
    pub fn write_string(&mut self, value: &str) -> (r: ErpcResult<()>)
        requires
            old(self).wf(),
        ensures
            final(self).wf(),
            value.spec_bytes().len() <= u32::MAX ==> {
                &&& r is Ok
                &&& final(self).bytes() == old(self).bytes() + encode_binary(value.spec_bytes())
                &&& final(self).remaining() == old(self).remaining() + encode_binary(
                    value.spec_bytes(),
                )
            },
            value.spec_bytes().len() > u32::MAX ==> {
                &&& r == Err::<(), ErpcError>(ErpcError::Codec(CodecError::LengthOverflow))
                &&& final(self).bytes() == old(self).bytes()
                &&& final(self).remaining() == old(self).remaining()
            },
    {
        self.write_binary(value.as_bytes())
    }

    /// Reads one byte.
    pub fn read_uint8(&mut self) -> (r: ErpcResult<u8>)
        requires
            old(self).wf(),
        ensures
            final(self).wf(),
            final(self).bytes() == old(self).bytes(),
            old(self).remaining().len() >= 1 ==> {
                &&& r == Ok::<u8, ErpcError>(old(self).remaining()[0])
                &&& final(self).remaining() == old(self).remaining().skip(1)
            },
            old(self).remaining().len() < 1 ==> {
                &&& r == Err::<u8, ErpcError>(ErpcError::Codec(CodecError::BufferUnderflow))
                &&& final(self).remaining() == old(self).remaining()
            },
    {
        if self.cursor >= self.buffer.len() {
            return Err(ErpcError::Codec(CodecError::BufferUnderflow));
        }
        let v = self.buffer[self.cursor];
        self.cursor = self.cursor + 1;
        proof {
            assert(self.buffer@.skip(self.cursor as int) =~= old(self).remaining().skip(1));
        }
        Ok(v)
    }

    /// Reads a 16-bit little-endian value.
    pub fn read_uint16(&mut self) -> (r: ErpcResult<u16>)
        requires
            old(self).wf(),
        ensures
            final(self).wf(),
            final(self).bytes() == old(self).bytes(),
            old(self).remaining().len() >= 2 ==> {
                &&& r == Ok::<u16, ErpcError>(
                    from_le16(old(self).remaining()[0], old(self).remaining()[1]),
                )
                &&& final(self).remaining() == old(self).remaining().skip(2)
            },
            old(self).remaining().len() < 2 ==> {
                &&& r == Err::<u16, ErpcError>(ErpcError::Codec(CodecError::BufferUnderflow))
                &&& final(self).remaining() == old(self).remaining()
            },
    {
        if self.buffer.len() - self.cursor < 2 {
            return Err(ErpcError::Codec(CodecError::BufferUnderflow));
        }
        let b0 = self.buffer[self.cursor];
        let b1 = self.buffer[self.cursor + 1];
        self.cursor = self.cursor + 2;
        proof {
            assert(self.buffer@.skip(self.cursor as int) =~= old(self).remaining().skip(2));
        }
        Ok((b0 as u16) | ((b1 as u16) << 8u16))
    }

    /// Reads a 32-bit little-endian value.
    pub fn read_uint32(&mut self) -> (r: ErpcResult<u32>)
        requires
            old(self).wf(),
        ensures
            final(self).wf(),
            final(self).bytes() == old(self).bytes(),
            old(self).remaining().len() >= 4 ==> {
                &&& r == Ok::<u32, ErpcError>(from_le32(old(self).remaining()))
                &&& final(self).remaining() == old(self).remaining().skip(4)
            },
            old(self).remaining().len() < 4 ==> {
                &&& r == Err::<u32, ErpcError>(ErpcError::Codec(CodecError::BufferUnderflow))
                &&& final(self).remaining() == old(self).remaining()
            },
    {
        if self.buffer.len() - self.cursor < 4 {
            return Err(ErpcError::Codec(CodecError::BufferUnderflow));
        }
        let c = self.cursor;
        let b0 = self.buffer[c];
        let b1 = self.buffer[c + 1];
        let b2 = self.buffer[c + 2];
        let b3 = self.buffer[c + 3];
        self.cursor = c + 4;
        proof {
            assert(self.buffer@.skip(self.cursor as int) =~= old(self).remaining().skip(4));
        }
        Ok((b0 as u32) | ((b1 as u32) << 8u32) | ((b2 as u32) << 16u32) | ((b3 as u32) << 24u32))
    }

    /// Reads `n` raw bytes.
    pub fn read_bytes(&mut self, n: usize) -> (r: ErpcResult<Vec<u8>>)
        requires
            old(self).wf(),
        ensures
            final(self).wf(),
            final(self).bytes() == old(self).bytes(),
            old(self).remaining().len() >= n ==> {
                &&& r matches Ok(v) && v@ == old(self).remaining().take(n as int)
                &&& final(self).remaining() == old(self).remaining().skip(n as int)
            },
            old(self).remaining().len() < n ==> {
                &&& r matches Err(e) && e == ErpcError::Codec(CodecError::BufferUnderflow)
                &&& final(self).remaining() == old(self).remaining()
            },
    {
        if self.buffer.len() - self.cursor < n {
            return Err(ErpcError::Codec(CodecError::BufferUnderflow));
        }
        let c = self.cursor;
        let mut out: Vec<u8> = Vec::with_capacity(n);
        let mut i: usize = 0;
        while i < n
            invariant
                i <= n,
                c + n <= self.buffer.len(),
                self.cursor == c,
                self.buffer@ == old(self).buffer@,
                out@ == self.buffer@.subrange(c as int, c + i),
            decreases n - i,
        {
            out.push(self.buffer[c + i]);
            i = i + 1;
            proof {
                assert(out@ =~= self.buffer@.subrange(c as int, c + i));
            }
        }
        self.cursor = c + n;
        proof {
            assert(out@ =~= old(self).remaining().take(n as int));
            assert(self.buffer@.skip(self.cursor as int) =~= old(self).remaining().skip(n as int));
        }
        Ok(out)
    }

    /// Reads a length-prefixed binary field. On failure nothing is consumed.
    pub fn read_binary(&mut self) -> (r: ErpcResult<Vec<u8>>)
        requires
            old(self).wf(),
        ensures
            final(self).wf(),
            final(self).bytes() == old(self).bytes(),
            ({
                let s = old(self).remaining();
                if s.len() >= 4 && s.len() - 4 >= from_le32(s) {
                    &&& r matches Ok(v) && v@ == s.subrange(4, 4 + from_le32(s))
                    &&& final(self).remaining() == s.skip(4 + from_le32(s))
                } else {
                    &&& r matches Err(e) && e == ErpcError::Codec(CodecError::BufferUnderflow)
                    &&& final(self).remaining() == s
                }
            }),
    {
        let saved = self.cursor;
        let len = match self.read_uint32() {
            Ok(v) => v,
            Err(e) => return Err(e),
        };
        let n = len as usize;
        match self.read_bytes(n) {
            Ok(v) => {
                proof {
                    let s = old(self).remaining();
                    assert(v@ =~= s.subrange(4, 4 + from_le32(s)));
                    assert(s.skip(4).skip(n as int) =~= s.skip(4 + n));
                }
                Ok(v)
            },
            Err(e) => {
                self.cursor = saved;
                Err(e)
            },
        }
    }

    /// Reads a length-prefixed UTF-8 string field. On failure nothing is consumed.
    pub fn read_string(&mut self) -> (r: ErpcResult<String>)
        requires
            old(self).wf(),
        ensures
            final(self).wf(),
            final(self).bytes() == old(self).bytes(),
            ({
                let s = old(self).remaining();
                let ok_len = s.len() >= 4 && s.len() - 4 >= from_le32(s);
                let body = s.subrange(4, 4 + from_le32(s));
                if ok_len && valid_utf8(body) {
                    &&& r matches Ok(v) && v@ == decode_utf8(body)
                    &&& final(self).remaining() == s.skip(4 + from_le32(s))
                } else if ok_len {
                    &&& r matches Err(e) && e == ErpcError::Codec(CodecError::InvalidUtf8)
                    &&& final(self).remaining() == s
                } else {
                    &&& r matches Err(e) && e == ErpcError::Codec(CodecError::BufferUnderflow)
                    &&& final(self).remaining() == s
                }
            }),
    {
        let saved = self.cursor;
        let bytes = match self.read_binary() {
            Ok(v) => v,
            Err(e) => return Err(e),
        };
        match string_from_utf8(bytes) {
            Ok(s) => Ok(s),
            Err(_) => {
                self.cursor = saved;
                proof {
                    assert(self.buffer@.skip(self.cursor as int) == old(self).remaining());
                }
                Err(ErpcError::Codec(CodecError::InvalidUtf8))
            },
        }
    }

    /// Starts a new outgoing message: discards the current contents and writes
    /// the header for `info`.
    pub fn start_write_message(&mut self, info: &MessageInfo) -> (r: ErpcResult<()>)
        requires
            old(self).wf(),
        ensures
            final(self).wf(),
            r is Ok,
            final(self).bytes() == encode_header(*info),
            final(self).remaining() == encode_header(*info),
    {
        self.reset();
        let _ = self.write_uint8(info.message_type.to_u8());
        let _ = self.write_uint8(info.request);
        let _ = self.write_uint8(info.service);
        let _ = self.write_uint8(BASIC_CODEC_VERSION);
        let _ = self.write_uint32(info.sequence);
        proof {
            assert(self.bytes() =~= encode_header(*info));
            assert(self.remaining() =~= encode_header(*info));
        }
        Ok(())
    }

    /// Reads a message header. On failure nothing is consumed.
    pub fn start_read_message(&mut self) -> (r: ErpcResult<MessageInfo>)
        requires
            old(self).wf(),
        ensures
            final(self).wf(),
            final(self).bytes() == old(self).bytes(),
            match decode_header(old(self).remaining()) {
                Ok(info) => r == Ok::<MessageInfo, ErpcError>(info) && final(self).remaining()
                    == old(self).remaining().skip(8),
                Err(e) => r == Err::<MessageInfo, ErpcError>(ErpcError::Codec(e)) && final(self).remaining() == old(self).remaining(),
            },
    {
        let c = self.cursor;
        if self.buffer.len() - c < 4 {
            return Err(ErpcError::Codec(CodecError::BufferUnderflow));
        }
        let type_code = self.buffer[c];
        let request = self.buffer[c + 1];
        let service = self.buffer[c + 2];
        let version = self.buffer[c + 3];
        if version != BASIC_CODEC_VERSION {
            return Err(ErpcError::Codec(CodecError::InvalidVersion(version)));
        }
        let message_type = match MessageType::from_u8(type_code) {
            Some(t) => t,
            None => return Err(ErpcError::Codec(CodecError::InvalidMessageType(type_code))),
        };
        if self.buffer.len() - c < 8 {
            return Err(ErpcError::Codec(CodecError::BufferUnderflow));
        }
        self.cursor = c + 4;
        let sequence = match self.read_uint32() {
            Ok(v) => v,
            Err(e) => return Err(e),
        };
        proof {
            let s = old(self).remaining();
            let a = s.subrange(4, 8);
            let b = s.skip(4);
            assert(a[0] == b[0] && a[1] == b[1] && a[2] == b[2] && a[3] == b[3]);
            assert(s.skip(4).skip(4) =~= s.skip(8));
            assert(from_le32(s.subrange(4, 8)) == from_le32(s.skip(4)));
        }
        Ok(MessageInfo { message_type, service, request, sequence })
    }

    /// The bytes not yet read.
    pub fn get_remaining_bytes(&self) -> (r: ErpcResult<Vec<u8>>)
        requires
            self.wf(),
        ensures
            r matches Ok(v) && v@ == self.remaining(),
    {
        let mut out: Vec<u8> = Vec::new();
        let mut i: usize = self.cursor;
        while i < self.buffer.len()
            invariant
                self.cursor <= i <= self.buffer@.len(),
                out@ == self.buffer@.subrange(self.cursor as int, i as int),
            decreases self.buffer.len() - i,
        {
            out.push(self.buffer[i]);
            i = i + 1;
            proof {
                assert(out@ =~= self.buffer@.subrange(self.cursor as int, i as int));
            }
        }
        proof {
            assert(out@ =~= self.remaining());
        }
        Ok(out)
    }
}

/// Creates codecs for the client and the server.
pub trait CodecFactory {
    /// An empty codec for an outgoing message.
    fn create(&self) -> (r: BasicCodec)
        ensures
            r.wf(),
            r.bytes() == Seq::<u8>::empty(),
            r.remaining() == Seq::<u8>::empty(),
    ;

    /// A codec that reads `data`.
    fn create_from_data(&self, data: Vec<u8>) -> (r: BasicCodec)
        ensures
            r.wf(),
            r.bytes() == data@,
            r.remaining() == data@,
    ;
}

/// Factory of [`BasicCodec`] values.
#[derive(Debug, Clone, Copy, Default)]
pub struct BasicCodecFactory;

impl BasicCodecFactory {
    /// A new factory.
    pub fn new() -> (r: Self) {
        BasicCodecFactory
    }
}

impl CodecFactory for BasicCodecFactory {
    fn create(&self) -> (r: BasicCodec) {
        BasicCodec::new()
    }

    fn create_from_data(&self, data: Vec<u8>) -> (r: BasicCodec) {
        BasicCodec::from_data(data)
    }
}

} // verus!

verus! {

/// A binary field reads back as the bytes it was written from, and the read
/// stops right after it.
pub proof fn law_binary_roundtrip(data: Seq<u8>, rest: Seq<u8>)
    requires
        data.len() <= u32::MAX,
    ensures
        ({
            let s = encode_binary(data) + rest;
            &&& s.len() >= 4
            &&& s.len() - 4 >= from_le32(s)
            &&& s.subrange(4, 4 + from_le32(s)) == data
            &&& s.skip(4 + from_le32(s)) == rest
        }),
{
    let s = encode_binary(data) + rest;
    lemma_le32_roundtrip(data.len() as u32);
    assert(s.subrange(0, 4) =~= le32(data.len() as u32));
    assert(from_le32(s) == from_le32(le32(data.len() as u32)));
    assert(s.subrange(4, 4 + data.len() as int) =~= data);
    assert(s.skip(4 + data.len() as int) =~= rest);
}

/// A string field reads back as the string it was written from.
pub proof fn law_string_roundtrip(chars: Seq<char>, rest: Seq<u8>)
    requires
        vstd::utf8::encode_utf8(chars).len() <= u32::MAX,
    ensures
        ({
            let body = vstd::utf8::encode_utf8(chars);
            let s = encode_binary(body) + rest;
            &&& s.len() >= 4
            &&& s.len() - 4 >= from_le32(s)
            &&& valid_utf8(s.subrange(4, 4 + from_le32(s)))
            &&& decode_utf8(s.subrange(4, 4 + from_le32(s))) == chars
            &&& s.skip(4 + from_le32(s)) == rest
        }),
{
    let body = vstd::utf8::encode_utf8(chars);
    law_binary_roundtrip(body, rest);
    vstd::utf8::encode_utf8_valid_utf8(chars);
    vstd::utf8::encode_utf8_decode_utf8(chars);
}

} // verus!
