//! Blocking client for synchronous RPC calls.

use crate::codec::{
    decode_header, encode_header, CodecFactory, MessageInfo, MessageType, RequestContext,
};
use crate::error::{ErpcError, ErpcResult, RequestError};
use crate::transport::BlockingTransport;
use vstd::prelude::*;

verus! {

/// The sequence number that follows `counter`; it wraps around to zero.
pub open spec fn next_sequence_number(counter: u32) -> u32 {
    if counter == u32::MAX {
        0
    } else {
        (counter + 1) as u32
    }
}

/// The sequence number after `n` requests, starting from `counter`.
pub open spec fn sequence_after(counter: u32, n: nat) -> u32
    decreases n,
{
    if n == 0 {
        counter
    } else {
        next_sequence_number(sequence_after(counter, (n - 1) as nat))
    }
}

proof fn lemma_sequence_after(counter: u32, n: nat)
    ensures
        sequence_after(counter, n) as int == (counter as int + n) % 0x1_0000_0000,
    decreases n,
{
    if n > 0 {
        lemma_sequence_after(counter, (n - 1) as nat);
        let prev = (counter as int + n - 1) % 0x1_0000_0000;
        vstd::arithmetic::div_mod::lemma_add_mod_noop(counter as int + n - 1, 1, 0x1_0000_0000);
        vstd::arithmetic::div_mod::lemma_small_mod(1, 0x1_0000_0000);
        if prev == u32::MAX {
            vstd::arithmetic::div_mod::lemma_mod_self_0(0x1_0000_0000);
        } else {
            vstd::arithmetic::div_mod::lemma_small_mod((prev + 1) as nat, 0x1_0000_0000);
        }
    } else {
        vstd::arithmetic::div_mod::lemma_small_mod(counter as nat, 0x1_0000_0000);
    }
}

/// A new client numbers its requests 1, 2, 3, ...: the `n`-th request carries
/// `n`, until the counter wraps around after `u32::MAX` to zero.
pub proof fn law_sequence_numbers_count_up(n: nat)
    ensures
        n <= u32::MAX ==> sequence_after(0, n) == n,
        sequence_after(0, 0x1_0000_0000) == 0,
        sequence_after(0, n + 1) == next_sequence_number(sequence_after(0, n)),
{
    lemma_sequence_after(0, n);
    lemma_sequence_after(0, 0x1_0000_0000);
    vstd::arithmetic::div_mod::lemma_mod_self_0(0x1_0000_0000);
    if n <= u32::MAX {
        vstd::arithmetic::div_mod::lemma_small_mod(n, 0x1_0000_0000);
    }
}

/// Requests made one after another carry distinct sequence numbers until
/// the counter has gone all the way round.
pub proof fn law_sequence_numbers_distinct(counter: u32, i: nat, j: nat)
    requires
        i < j < 0x1_0000_0000,
    ensures
        sequence_after(counter, i) != sequence_after(counter, j),
{
    lemma_sequence_after(counter, i);
    lemma_sequence_after(counter, j);
    let a = counter as int + i;
    let b = counter as int + j;
    vstd::arithmetic::div_mod::lemma_fundamental_div_mod(a, 0x1_0000_0000);
    vstd::arithmetic::div_mod::lemma_fundamental_div_mod(b, 0x1_0000_0000);
    if a % 0x1_0000_0000 == b % 0x1_0000_0000 {
        let qa = a / 0x1_0000_0000;
        let qb = b / 0x1_0000_0000;
        assert(b - a == 0x1_0000_0000 * (qb - qa)) by (nonlinear_arith)
            requires
                a == 0x1_0000_0000 * qa + a % 0x1_0000_0000,
                b == 0x1_0000_0000 * qb + b % 0x1_0000_0000,
                a % 0x1_0000_0000 == b % 0x1_0000_0000,
        ;
        assert(false) by (nonlinear_arith)
            requires
                b - a == 0x1_0000_0000 * (qb - qa),
                0 < b - a < 0x1_0000_0000,
        ;
    }
}

/// The bytes of a request message: its header, then the encoded arguments.
pub open spec fn request_message(
    service_id: u8,
    method_id: u8,
    is_oneway: bool,
    sequence: u32,
    data: Seq<u8>,
) -> Seq<u8> {
    let message_type = if is_oneway {
        MessageType::Oneway
    } else {
        MessageType::Invocation
    };
    encode_header(MessageInfo { message_type, service: service_id, request: method_id, sequence })
        + data
}

/// What the client makes of the reply `response` to the request numbered
/// `expected`: the reply payload, or the error that rejects it.
pub open spec fn reply_outcome(response: Seq<u8>, expected: u32) -> Result<Seq<u8>, ErpcError> {
    match decode_header(response) {
        Err(e) => Err(ErpcError::Codec(e)),
        Ok(info) => {
            if info.message_type != MessageType::Reply {
                Err(ErpcError::Request(RequestError::InvalidMessageType))
            } else if info.sequence != expected {
                Err(
                    ErpcError::Request(
                        RequestError::UnexpectedSequence { expected, actual: info.sequence },
                    ),
                )
            } else {
                Ok(response.skip(8))
            }
        },
    }
}

/// A reply written for the request numbered `sequence` is accepted by a client
/// waiting for that number and yields the payload after the header; a client
/// waiting for another number rejects it, naming both numbers; a message that
/// is not a reply is rejected as such.
pub proof fn law_reply_matching(
    message_type: MessageType,
    service: u8,
    method: u8,
    sequence: u32,
    expected: u32,
    payload: Seq<u8>,
)
    ensures
        ({
            let reply = encode_header(
                MessageInfo { message_type, service, request: method, sequence },
            ) + payload;
            &&& message_type != MessageType::Reply ==> reply_outcome(reply, expected) == Err::<
                Seq<u8>,
                ErpcError,
            >(ErpcError::Request(RequestError::InvalidMessageType))
            &&& message_type == MessageType::Reply && sequence == expected ==> reply_outcome(
                reply,
                expected,
            ) == Ok::<Seq<u8>, ErpcError>(payload)
            &&& message_type == MessageType::Reply && sequence != expected ==> reply_outcome(
                reply,
                expected,
            ) == Err::<Seq<u8>, ErpcError>(
                ErpcError::Request(RequestError::UnexpectedSequence { expected, actual: sequence }),
            )
        }),
{
    let info = MessageInfo { message_type, service, request: method, sequence };
    crate::codec::lemma_header_roundtrip(info, payload);
    assert((encode_header(info) + payload).skip(8) =~= payload);
}

/// `r` holds what `outcome` describes.
pub open spec fn result_is(r: ErpcResult<Vec<u8>>, outcome: Result<Seq<u8>, ErpcError>) -> bool {
    match outcome {
        Ok(v) => r matches Ok(w) && w@ == v,
        Err(e) => r matches Err(f) && f == e,
    }
}

/// A received message as a byte sequence, or the receive error.
pub open spec fn received_view(r: ErpcResult<Vec<u8>>) -> Result<Seq<u8>, ErpcError> {
    match r {
        Ok(v) => Ok(v@),
        Err(e) => Err(e),
    }
}

/// Blocking client manager for synchronous RPC calls.
pub struct BlockingClientManager<T, F> where T: BlockingTransport, F: CodecFactory {
    transport: T,
    codec_factory: F,
    sequence_counter: u32,
    last_request: Ghost<Seq<u8>>,
    last_send: Ghost<Option<ErpcResult<()>>>,
    last_reply: Ghost<Option<Result<Seq<u8>, ErpcError>>>,
}

impl<T, F> BlockingClientManager<T, F> where T: BlockingTransport, F: CodecFactory {
    /// The transport.
    pub closed spec fn link(&self) -> T {
        self.transport
    }

    /// The codec factory.
    pub closed spec fn factory(&self) -> F {
        self.codec_factory
    }

    /// The sequence number of the latest request (zero before the first).
    pub closed spec fn last_sequence(&self) -> u32 {
        self.sequence_counter
    }

    /// The bytes of the latest request handed to the transport.
    pub closed spec fn last_request(&self) -> Seq<u8> {
        self.last_request@
    }

    /// The outcome of sending the latest request; `None` before the first.
    pub closed spec fn last_send(&self) -> Option<ErpcResult<()>> {
        self.last_send@
    }

    /// The outcome of receiving the reply to the latest request; `None` when
    /// no reply was awaited.
    pub closed spec fn last_reply(&self) -> Option<Result<Seq<u8>, ErpcError>> {
        self.last_reply@
    }

    /// Create new blocking client manager.
    pub fn new(transport: T, codec_factory: F) -> (r: Self)
        ensures
            r.link() == transport,
            r.factory() == codec_factory,
            r.last_sequence() == 0,
            r.last_send() is None,
            r.last_reply() is None,
    {
        BlockingClientManager {
            transport,
            codec_factory,
            sequence_counter: 0,
            last_request: Ghost(Seq::empty()),
            last_send: Ghost(None),
            last_reply: Ghost(None),
        }
    }

    fn next_sequence(&mut self) -> (r: u32)
        ensures
            r == next_sequence_number(old(self).last_sequence()),
            final(self).last_sequence() == r,
            final(self).link() == old(self).link(),
            final(self).factory() == old(self).factory(),
    {
        self.sequence_counter = self.sequence_counter.wrapping_add(1);
        self.sequence_counter
    }

    /// Create a new request context.
    pub fn create_request(&mut self, is_oneway: bool) -> (r: RequestContext)
        ensures
            r.sequence == next_sequence_number(old(self).last_sequence()),
            r.service_id == None::<u32>,
            r.is_oneway == is_oneway,
            final(self).last_sequence() == r.sequence,
            final(self).link() == old(self).link(),
            final(self).factory() == old(self).factory(),
    {
        let sequence = self.next_sequence();
        RequestContext::new(sequence, is_oneway)
    }

    /// Create a new request context with service ID.
    pub fn create_request_with_service(&mut self, service_id: u32, is_oneway: bool) -> (r:
        RequestContext)
        ensures
            r.sequence == next_sequence_number(old(self).last_sequence()),
            r.service_id == Some(service_id),
            r.is_oneway == is_oneway,
            final(self).last_sequence() == r.sequence,
            final(self).link() == old(self).link(),
            final(self).factory() == old(self).factory(),
    {
        let sequence = self.next_sequence();
        RequestContext::with_service(sequence, Some(service_id), is_oneway)
    }

    /// Checks the reply `response_data` to the request numbered
    /// `expected_sequence` and returns its payload.
    pub fn check_reply(&self, response_data: Vec<u8>, expected_sequence: u32) -> (r: ErpcResult<
        Vec<u8>,
    >)
        ensures
            result_is(r, reply_outcome(response_data@, expected_sequence)),
    {
        let mut response_codec = self.codec_factory.create_from_data(response_data);
        let response_info = match response_codec.start_read_message() {
            Ok(info) => info,
            Err(e) => return Err(e),
        };
        if response_info.message_type != MessageType::Reply {
            return Err(ErpcError::Request(RequestError::InvalidMessageType));
        }
        if response_info.sequence != expected_sequence {
            return Err(
                ErpcError::Request(
                    RequestError::UnexpectedSequence {
                        expected: expected_sequence,
                        actual: response_info.sequence,
                    },
                ),
            );
        }
        response_codec.get_remaining_bytes()
    }

    /// Perform a request-response call for generated code: sends the request
    /// under the next sequence number and, unless it is oneway, receives and
    /// checks the reply. A failed send is returned; a oneway call whose send
    /// succeeded returns an empty payload without waiting for a reply.
    pub fn perform_request(
        &mut self,
        service_id: u8,
        method_id: u8,
        is_oneway: bool,
        request_data: Vec<u8>,
    ) -> (r: ErpcResult<Vec<u8>>)
        ensures
            final(self).last_sequence() == next_sequence_number(old(self).last_sequence()),
            final(self).factory() == old(self).factory(),
            final(self).last_request() == request_message(
                service_id,
                method_id,
                is_oneway,
                final(self).last_sequence(),
                request_data@,
            ),
            final(self).last_send() is Some,
            final(self).last_send() matches Some(Err(e)) ==> r == Err::<Vec<u8>, ErpcError>(e)
                && final(self).last_reply() is None && final(self).link().received() == old(self).link().received(),
            final(self).last_send() == Some(Ok::<(), ErpcError>(())) ==> final(self).link().sent()
                == old(self).link().sent().push(final(self).last_request()),
            final(self).last_send() == Some(Ok::<(), ErpcError>(())) && is_oneway ==> {
                &&& r matches Ok(v) && v@ == Seq::<u8>::empty()
                &&& final(self).link().received() == old(self).link().received()
                &&& final(self).last_reply() is None
            },
            final(self).last_send() == Some(Ok::<(), ErpcError>(())) && !is_oneway ==> final(self).last_reply() is Some && final(self).link().receptions() == old(self).link().receptions().push(final(self).last_reply()->Some_0),
            final(self).last_send() matches Some(Err(_)) || is_oneway ==> final(self).link().receptions() == old(self).link().receptions(),
            final(self).last_send() == Some(Ok::<(), ErpcError>(())) && !is_oneway ==> match final(self).last_reply() {
                Some(Err(e)) => r == Err::<Vec<u8>, ErpcError>(e),
                Some(Ok(d)) => {
                    &&& final(self).link().received() == old(self).link().received().push(d)
                    &&& result_is(r, reply_outcome(d, final(self).last_sequence()))
                },
                None => false,
            },
    {
        let sequence = self.next_sequence();
        let message_type = if is_oneway {
            MessageType::Oneway
        } else {
            MessageType::Invocation
        };
        let message_info = MessageInfo::new(message_type, service_id, method_id, sequence);

        let mut codec = self.codec_factory.create();
        let _ = codec.start_write_message(&message_info);
        let _ = codec.write_bytes(request_data.as_slice());
        self.last_request = Ghost(codec.bytes());
        self.last_reply = Ghost(None);
        let sent = self.transport.send(codec.as_bytes());
        self.last_send = Ghost(Some(sent));
        match sent {
            Ok(()) => {},
            Err(e) => return Err(e),
        }

        if is_oneway {
            return Ok(Vec::new());
        }

        let received = self.transport.receive();
        self.last_reply = Ghost(Some(received_view(received)));
        let response_data = match received {
            Ok(v) => v,
            Err(e) => return Err(e),
        };
        self.check_reply(response_data, sequence)
    }

    /// Send raw data and optionally wait for a response.
    pub fn send_raw_request(&mut self, request_data: &[u8], is_oneway: bool) -> (r: ErpcResult<
        Vec<u8>,
    >)
        ensures
            final(self).last_sequence() == next_sequence_number(old(self).last_sequence()),
            final(self).factory() == old(self).factory(),
            final(self).last_request() == request_data@,
            final(self).last_send() is Some,
            final(self).last_send() matches Some(Err(e)) ==> r == Err::<Vec<u8>, ErpcError>(e)
                && final(self).last_reply() is None && final(self).link().received() == old(self).link().received(),
            final(self).last_send() == Some(Ok::<(), ErpcError>(())) ==> final(self).link().sent()
                == old(self).link().sent().push(request_data@),
            final(self).last_send() == Some(Ok::<(), ErpcError>(())) && is_oneway ==> {
                &&& r matches Ok(v) && v@ == Seq::<u8>::empty()
                &&& final(self).link().received() == old(self).link().received()
                &&& final(self).last_reply() is None
            },
            final(self).last_send() == Some(Ok::<(), ErpcError>(())) && !is_oneway ==> final(self).last_reply() is Some && final(self).link().receptions() == old(self).link().receptions().push(final(self).last_reply()->Some_0),
            final(self).last_send() matches Some(Err(_)) || is_oneway ==> final(self).link().receptions() == old(self).link().receptions(),
            final(self).last_send() == Some(Ok::<(), ErpcError>(())) && !is_oneway ==> match final(self).last_reply() {
                Some(x) => result_is(r, x) && (x matches Ok(d) ==> final(self).link().received()
                    == old(self).link().received().push(d)),
                None => false,
            },
    {
        let _context = self.create_request(is_oneway);
        self.last_request = Ghost(request_data@);
        self.last_reply = Ghost(None);
        let sent = self.transport.send(request_data);
        self.last_send = Ghost(Some(sent));
        match sent {
            Ok(()) => {},
            Err(e) => return Err(e),
        }
        if is_oneway {
            Ok(Vec::new())
        } else {
            let received = self.transport.receive();
            self.last_reply = Ghost(Some(received_view(received)));
            received
        }
    }

    /// Send a request without waiting for response.
    pub fn send_request(&mut self, request_data: &[u8]) -> (r: ErpcResult<()>)
        ensures
            final(self).last_sequence() == next_sequence_number(old(self).last_sequence()),
            final(self).factory() == old(self).factory(),
            final(self).last_request() == request_data@,
            final(self).last_send() is Some,
            final(self).last_send() matches Some(Err(e)) ==> r == Err::<(), ErpcError>(e)
                && final(self).link().received() == old(self).link().received(),
            final(self).link().receptions() == old(self).link().receptions(),
            final(self).last_send() == Some(Ok::<(), ErpcError>(())) ==> {
                &&& r is Ok
                &&& final(self).link().sent() == old(self).link().sent().push(request_data@)
                &&& final(self).link().received() == old(self).link().received()
            },
    {
        match self.send_raw_request(request_data, true) {
            Ok(_) => Ok(()),
            Err(e) => Err(e),
        }
    }

    /// Receive a response for a previous request.
    pub fn receive_response(&mut self) -> (r: ErpcResult<Vec<u8>>)
        ensures
            final(self).last_sequence() == old(self).last_sequence(),
            final(self).factory() == old(self).factory(),
            final(self).link().sent() == old(self).link().sent(),
            r matches Ok(v) ==> final(self).link().received() == old(self).link().received().push(
                v@,
            ),
    {
        self.transport.receive()
    }

    /// Get the codec factory.
    pub fn codec_factory(&self) -> (r: &F)
        ensures
            *r == self.factory(),
    {
        &self.codec_factory
    }

    /// Check if client is connected.
    pub fn is_connected(&self) -> (r: bool)
        ensures
            r == self.link().open(),
    {
        self.transport.is_connected()
    }

    /// Close the client connection.
    pub fn close(&mut self) -> (r: ErpcResult<()>)
        ensures
            final(self).last_sequence() == old(self).last_sequence(),
            final(self).factory() == old(self).factory(),
            final(self).link().sent() == old(self).link().sent(),
            final(self).link().received() == old(self).link().received(),
            r is Ok ==> !final(self).link().open(),
            old(self).link().close_never_fails() ==> r is Ok,
    {
        self.transport.close()
    }
}

} // verus!
