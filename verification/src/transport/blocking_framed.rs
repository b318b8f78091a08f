//! Blocking framed transport: every message travels as a six-byte header
//! (header CRC, message length, body CRC, each little-endian) followed by the
//! message body.

use crate::blocking_client::received_view;
use crate::codec::{from_le16, le16, BasicCodec};
use crate::crc16::{calculate, crc16};
use crate::error::{CodecError, ErpcError, ErpcResult, TransportError};
use crate::transport::BlockingTransport;
use std::time::Duration;
use vstd::prelude::*;

verus! {

broadcast use vstd::string::group_string_axioms;

/// Length of a frame header.
pub const HEADER_LEN: usize = 6;

/// Checksum of a header: the CRC of the length field plus the CRC of the body
/// CRC field, modulo 2^16.
pub open spec fn header_crc(length: u16, crc_body: u16) -> u16 {
    ((crc16(le16(length)) as int + crc16(le16(crc_body)) as int) % 0x10000) as u16
}

/// The header that precedes `data` on the link. Its length field holds the
/// data length modulo 2^16.
pub open spec fn frame_header(data: Seq<u8>) -> Seq<u8> {
    let length = (data.len() % 0x10000) as u16;
    let crc_body = crc16(data);
    le16(header_crc(length, crc_body)) + le16(length) + le16(crc_body)
}

/// The header checksum field of `h`.
pub open spec fn header_crc_field(h: Seq<u8>) -> u16 {
    from_le16(h[0], h[1])
}

/// The message length field of `h`.
pub open spec fn header_length_field(h: Seq<u8>) -> u16 {
    from_le16(h[2], h[3])
}

/// The body checksum field of `h`.
pub open spec fn header_body_crc_field(h: Seq<u8>) -> u16 {
    from_le16(h[4], h[5])
}

/// `h` is a complete header whose checksum matches its fields.
pub open spec fn header_intact(h: Seq<u8>) -> bool {
    &&& h.len() >= HEADER_LEN
    &&& header_crc(header_length_field(h), header_body_crc_field(h)) == header_crc_field(h)
}

/// `data` is a body accepted under the intact header `h`: no longer than the
/// announced length, with the announced checksum.
pub open spec fn body_matches(h: Seq<u8>, data: Seq<u8>) -> bool {
    &&& data.len() <= header_length_field(h)
    &&& crc16(data) == header_body_crc_field(h)
}

/// `e` is a receive failure carrying the text `msg`.
pub open spec fn is_receive_failure(e: ErpcError, msg: Seq<char>) -> bool {
    e matches ErpcError::Transport(TransportError::ReceiveFailed(s)) && s@ == msg
}

/// Text of the error for a corrupted header.
pub open spec fn header_crc_text() -> Seq<char> {
    "Invalid message (header) CRC"@
}

/// Text of the error for a corrupted body.
pub open spec fn body_crc_text() -> Seq<char> {
    "Invalid message (body) CRC"@
}

/// Every second chunk of a link log, counted from its end: the message bodies
/// of a log of header/body pairs.
pub open spec fn message_log(chunks: Seq<Seq<u8>>) -> Seq<Seq<u8>>
    decreases chunks.len(),
{
    if chunks.len() < 2 {
        Seq::empty()
    } else {
        message_log(chunks.take(chunks.len() - 2)).push(chunks.last())
    }
}

/// Receives a header, checks it, receives the body it announces and checks
/// the body.
fn receive_frame<T: BlockingFramedTransport>(link: &mut T) -> (r: ErpcResult<Vec<u8>>)
    ensures
        final(link).link_open() == old(link).link_open(),
        final(link).sent_chunks() == old(link).sent_chunks(),
        final(link).message_outcomes() == old(link).message_outcomes(),
        framed_receive(
            old(link).received_chunks(),
            final(link).received_chunks(),
            final(link).last_error(),
            received_view(r),
        ),
{
    let ghost before = link.received_chunks();
    let header_data = match link.base_receive(HEADER_LEN) {
        Ok(v) => v,
        Err(e) => return Err(e),
    };
    let ghost h = header_data@;
    let (message_length, crc_body) = match decode_frame_header(header_data) {
        Ok(fields) => fields,
        Err(e) => {
            proof {
                assert(link.received_chunks().take(before.len() as int) =~= before);
            }
            return Err(e);
        },
    };
    let data = match link.base_receive(message_length as usize) {
        Ok(v) => v,
        Err(e) => {
            proof {
                assert(link.received_chunks().take(before.len() as int) =~= before);
            }
            return Err(e);
        },
    };
    proof {
        assert(link.received_chunks().take(before.len() as int) =~= before);
    }
    match check_frame_body(data.as_slice(), crc_body) {
        Ok(()) => {},
        Err(e) => return Err(e),
    }
    proof {
        lemma_message_log_push_pair(before, h, data@);
    }
    Ok(data)
}

/// Whether a framed receive that took the link log from `before` to `after`,
/// and left `last_error` as the error of the latest failed raw operation, may
/// end with `r`. A message is a header with an intact checksum followed by a
/// body of the announced length that matches it. A failure is one of: the
/// failed raw receive of the header, whose error is passed on; a corrupted
/// header; the failed raw receive of the body, whose error is passed on; a
/// body of the announced length whose checksum does not match.
pub open spec fn framed_receive(
    before: Seq<Seq<u8>>,
    after: Seq<Seq<u8>>,
    last_error: Option<ErpcError>,
    r: Result<Seq<u8>, ErpcError>,
) -> bool {
    match r {
        Ok(v) => {
            &&& after.len() == before.len() + 2
            &&& after.take(before.len() as int) == before
            &&& after[before.len() + 1int] == v
            &&& after[before.len() as int].len() == HEADER_LEN
            &&& header_intact(after[before.len() as int])
            &&& v.len() == header_length_field(after[before.len() as int])
            &&& body_matches(after[before.len() as int], v)
        },
        Err(e) => {
            ||| after == before && last_error == Some(e)
            ||| after.len() == before.len() + 1 && after.take(before.len() as int) == before
                && after.last().len() == HEADER_LEN && !header_intact(after.last())
                && is_receive_failure(e, header_crc_text())
            ||| after.len() == before.len() + 1 && after.take(before.len() as int) == before
                && after.last().len() == HEADER_LEN && header_intact(after.last())
                && last_error == Some(e)
            ||| after.len() == before.len() + 2 && after.take(before.len() as int) == before
                && after[before.len() as int].len() == HEADER_LEN && header_intact(
                after[before.len() as int],
            ) && after.last().len() == header_length_field(after[before.len() as int])
                && crc16(after.last())
                != header_body_crc_field(after[before.len() as int]) && is_receive_failure(
                e,
                body_crc_text(),
            )
        },
    }
}

/// When the receiving end takes from its link exactly the two chunks that a
/// successful `send` of `data` put on the sending end's link, the framed
/// receive gives `data` back.
pub proof fn law_framed_roundtrip(
    before: Seq<Seq<u8>>,
    data: Seq<u8>,
    last_error: Option<ErpcError>,
    r: Result<Seq<u8>, ErpcError>,
)
    requires
        data.len() <= 0xffff,
        framed_receive(before, before.push(frame_header(data)).push(data), last_error, r),
    ensures
        r == Ok::<Seq<u8>, ErpcError>(data),
{
    law_frame_accepted(data);
    let after = before.push(frame_header(data)).push(data);
    assert(after[before.len() as int] == frame_header(data));
    assert(after.last() == data);
}

/// A framed receive reads exactly the body length its intact header
/// announces: whenever it took a body from the link, successful or not, the
/// body has the announced length, and a returned message is that body.
pub proof fn law_receive_reads_announced_length(
    before: Seq<Seq<u8>>,
    after: Seq<Seq<u8>>,
    last_error: Option<ErpcError>,
    r: Result<Seq<u8>, ErpcError>,
)
    requires
        framed_receive(before, after, last_error, r),
        after.len() == before.len() + 2,
    ensures
        after[before.len() as int].len() == HEADER_LEN,
        header_intact(after[before.len() as int]),
        after.last().len() == header_length_field(after[before.len() as int]),
        r matches Ok(v) ==> v == after.last(),
{
}

/// Appending a header/body pair to a link log appends the body to its messages.
pub proof fn lemma_message_log_push_pair(chunks: Seq<Seq<u8>>, h: Seq<u8>, d: Seq<u8>)
    ensures
        message_log(chunks.push(h).push(d)) == message_log(chunks).push(d),
{
    let c = chunks.push(h).push(d);
    assert(c.take(c.len() - 2) =~= chunks);
}

/// A frame as `send` puts it on the link is accepted by `receive`: its header
/// is intact, announces the length of the data and the data's checksum.
pub proof fn law_frame_accepted(data: Seq<u8>)
    requires
        data.len() <= 0xffff,
    ensures
        frame_header(data).len() == HEADER_LEN,
        header_intact(frame_header(data)),
        header_length_field(frame_header(data)) == data.len(),
        body_matches(frame_header(data), data),
{
    let length = (data.len() % 0x10000) as u16;
    let crc_body = crc16(data);
    let h = frame_header(data);
    crate::codec::lemma_le16_roundtrip(header_crc(length, crc_body));
    crate::codec::lemma_le16_roundtrip(length);
    crate::codec::lemma_le16_roundtrip(crc_body);
    assert(h[0] == le16(header_crc(length, crc_body))[0]);
    assert(h[1] == le16(header_crc(length, crc_body))[1]);
    assert(h[2] == le16(length)[0]);
    assert(h[3] == le16(length)[1]);
    assert(h[4] == le16(crc_body)[0]);
    assert(h[5] == le16(crc_body)[1]);
}

fn wrapping_sum(a: u16, b: u16) -> (r: u16)
    ensures
        r == ((a as int + b as int) % 0x10000) as u16,
{
    ((a as u32 + b as u32) % 0x10000u32) as u16
}

fn crc_of_u16(v: u16) -> (r: u16)
    ensures
        r == crc16(le16(v)),
{
    let bytes: [u8; 2] = [(v & 0xffu16) as u8, (v >> 8u16) as u8];
    proof {
        assert(bytes@ =~= le16(v));
    }
    calculate(&bytes)
}

/// Computes the header that precedes `data`.
pub fn encode_frame_header(data: &[u8]) -> (r: Vec<u8>)
    ensures
        r@ == frame_header(data@),
{
    let mut codec = BasicCodec::new();
    let message_length = (data.len() % 0x10000) as u16;
    let crc_body = calculate(data);
    let crc_length = crc_of_u16(message_length);
    let crc_body_crc = crc_of_u16(crc_body);
    let crc_header = wrapping_sum(crc_length, crc_body_crc);
    let _ = codec.write_uint16(crc_header);
    let _ = codec.write_uint16(message_length);
    let _ = codec.write_uint16(crc_body);
    let header = codec.as_bytes();
    proof {
        assert(header@ =~= frame_header(data@));
    }
    crate::codec::copy_bytes(header)
}

/// Checks a received header and returns its length and body checksum fields.
pub fn decode_frame_header(header: Vec<u8>) -> (r: ErpcResult<(u16, u16)>)
    ensures
        header@.len() < HEADER_LEN ==> r == Err::<(u16, u16), ErpcError>(
            ErpcError::Codec(CodecError::BufferUnderflow),
        ),
        header@.len() >= HEADER_LEN && !header_intact(header@) ==> (r matches Err(e)
            && is_receive_failure(e, header_crc_text())),
        header_intact(header@) ==> r == Ok::<(u16, u16), ErpcError>(
            (header_length_field(header@), header_body_crc_field(header@)),
        ),
{
    let mut codec = BasicCodec::from_data(header);
    let crc_header = match codec.read_uint16() {
        Ok(v) => v,
        Err(e) => return Err(e),
    };
    let message_length = match codec.read_uint16() {
        Ok(v) => v,
        Err(e) => return Err(e),
    };
    let crc_body = match codec.read_uint16() {
        Ok(v) => v,
        Err(e) => return Err(e),
    };
    let computed = wrapping_sum(crc_of_u16(message_length), crc_of_u16(crc_body));
    if computed != crc_header {
        return Err(
            ErpcError::Transport(
                TransportError::ReceiveFailed("Invalid message (header) CRC".to_string()),
            ),
        );
    }
    Ok((message_length, crc_body))
}

/// Checks a received body against the body checksum of its header.
pub fn check_frame_body(data: &[u8], crc_body: u16) -> (r: ErpcResult<()>)
    ensures
        crc16(data@) == crc_body ==> r is Ok,
        crc16(data@) != crc_body ==> (r matches Err(e) && is_receive_failure(e, body_crc_text())),
{
    if calculate(data) != crc_body {
        return Err(
            ErpcError::Transport(
                TransportError::ReceiveFailed("Invalid message (body) CRC".to_string()),
            ),
        );
    }
    Ok(())
}

/// A raw byte link over which framed messages travel.
///
/// `sent_chunks()` and `received_chunks()` are the byte strings handed to and
/// taken from the link by successful calls; `link_open()` tells whether the
/// link is connected; `link_timeout()` is the time an operation may take;
/// `last_error()` is the error of the latest failed raw operation;
/// `link_close_never_fails()` tells that closing always succeeds;
/// `message_outcomes()` are the outcomes of the framed receives made over the
/// link, as `record_reception` noted them.
pub trait BlockingFramedTransport: Send + Sync {
    spec fn sent_chunks(&self) -> Seq<Seq<u8>>;

    spec fn received_chunks(&self) -> Seq<Seq<u8>>;

    spec fn link_open(&self) -> bool;

    spec fn link_timeout(&self) -> Duration;

    spec fn last_error(&self) -> Option<ErpcError>;

    spec fn link_close_never_fails(&self) -> bool;

    spec fn message_outcomes(&self) -> Seq<Result<Seq<u8>, ErpcError>>;

    /// Notes the outcome of a framed receive; changes nothing else.
    fn record_reception(&mut self, outcome: Ghost<Result<Seq<u8>, ErpcError>>)
        ensures
            final(self).message_outcomes() == old(self).message_outcomes().push(outcome@),
            final(self).sent_chunks() == old(self).sent_chunks(),
            final(self).received_chunks() == old(self).received_chunks(),
            final(self).link_open() == old(self).link_open(),
            final(self).link_timeout() == old(self).link_timeout(),
            final(self).last_error() == old(self).last_error(),
            final(self).link_close_never_fails() == old(self).link_close_never_fails(),
    ;

    /// Send raw data without framing.
    fn base_send(&mut self, data: &[u8]) -> (r: ErpcResult<()>)
        ensures
            final(self).received_chunks() == old(self).received_chunks(),
            final(self).link_open() == old(self).link_open(),
            r is Ok ==> final(self).sent_chunks() == old(self).sent_chunks().push(data@),
            r is Err ==> final(self).sent_chunks() == old(self).sent_chunks(),
            r matches Err(e) ==> final(self).last_error() == Some(e),
            final(self).message_outcomes() == old(self).message_outcomes(),
    ;

    /// Receive exactly `length` raw bytes without framing.
    fn base_receive(&mut self, length: usize) -> (r: ErpcResult<Vec<u8>>)
        ensures
            final(self).sent_chunks() == old(self).sent_chunks(),
            final(self).link_open() == old(self).link_open(),
            r matches Ok(v) ==> v@.len() == length && final(self).received_chunks() == old(self).received_chunks().push(v@),
            r is Err ==> final(self).received_chunks() == old(self).received_chunks(),
            r matches Err(e) ==> final(self).last_error() == Some(e),
            final(self).message_outcomes() == old(self).message_outcomes(),
    ;

    /// Check if the transport is connected.
    fn is_connected(&self) -> (r: bool)
        ensures
            r == self.link_open(),
    ;

    /// Close the transport.
    fn close(&mut self) -> (r: ErpcResult<()>)
        ensures
            final(self).sent_chunks() == old(self).sent_chunks(),
            final(self).received_chunks() == old(self).received_chunks(),
            r is Ok ==> !final(self).link_open(),
            old(self).link_close_never_fails() ==> r is Ok,
            final(self).message_outcomes() == old(self).message_outcomes(),
    ;

    /// Set the timeout for operations.
    fn set_timeout(&mut self, timeout: Duration)
        ensures
            final(self).link_timeout() == timeout,
            final(self).sent_chunks() == old(self).sent_chunks(),
            final(self).received_chunks() == old(self).received_chunks(),
            final(self).link_open() == old(self).link_open(),
            final(self).message_outcomes() == old(self).message_outcomes(),
    ;
}

impl<T: BlockingFramedTransport + 'static> BlockingTransport for T {
    open spec fn sent(&self) -> Seq<Seq<u8>> {
        message_log(self.sent_chunks())
    }

    open spec fn received(&self) -> Seq<Seq<u8>> {
        message_log(self.received_chunks())
    }

    open spec fn open(&self) -> bool {
        self.link_open()
    }

    open spec fn timeout(&self) -> Duration {
        self.link_timeout()
    }

    open spec fn close_never_fails(&self) -> bool {
        self.link_close_never_fails()
    }

    open spec fn receptions(&self) -> Seq<Result<Seq<u8>, ErpcError>> {
        self.message_outcomes()
    }

    /// Sends the frame header of `data`, then `data`.
    fn send(&mut self, data: &[u8]) -> (r: ErpcResult<()>)
        ensures
            final(self).link_open() == old(self).link_open(),
            r is Ok ==> final(self).sent_chunks() == old(self).sent_chunks().push(
                frame_header(data@),
            ).push(data@),
            r is Err ==> final(self).sent_chunks() == old(self).sent_chunks()
                || final(self).sent_chunks() == old(self).sent_chunks().push(frame_header(data@)),
            r matches Err(e) ==> final(self).last_error() == Some(e),
    {
        let header = encode_frame_header(data);
        match self.base_send(header.as_slice()) {
            Ok(()) => {},
            Err(e) => return Err(e),
        }
        match self.base_send(data) {
            Ok(()) => {},
            Err(e) => return Err(e),
        }
        proof {
            lemma_message_log_push_pair(old(self).sent_chunks(), frame_header(data@), data@);
        }
        Ok(())
    }

    /// Receives a framed message and notes its outcome.
    fn receive(&mut self) -> (r: ErpcResult<Vec<u8>>)
        ensures
            final(self).link_open() == old(self).link_open(),
            framed_receive(
                old(self).received_chunks(),
                final(self).received_chunks(),
                final(self).last_error(),
                received_view(r),
            ),
    {
        let r = receive_frame(self);
        self.record_reception(Ghost(received_view(r)));
        r
    }

    fn is_connected(&self) -> (r: bool) {
        BlockingFramedTransport::is_connected(self)
    }

    fn close(&mut self) -> (r: ErpcResult<()>) {
        BlockingFramedTransport::close(self)
    }

    fn set_timeout(&mut self, timeout: Duration) {
        BlockingFramedTransport::set_timeout(self, timeout)
    }
}

} // verus!
