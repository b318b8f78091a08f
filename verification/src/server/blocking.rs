//! Blocking server implementation: services are looked up by identifier,
//! their methods by method identifier.

use crate::blocking_client::{received_view, reply_outcome, request_message};
use crate::codec::{copy_bytes, decode_header, BasicCodec, CodecFactory, MessageInfo, MessageType};
use crate::error::{ErpcError, ErpcResult, RequestError, TransportError};
use crate::transport::BlockingTransport;
use std::collections::HashMap;
use vstd::prelude::*;

verus! {

broadcast use vstd::std_specs::hash::group_hash_axioms;

/// Blocking server trait for handling eRPC requests.
pub trait BlockingServer {
    /// The kind of service the server holds.
    type Service: BlockingService;

    /// Add a service to the server.
    fn add_service(&mut self, service: Self::Service) -> ErpcResult<()>;

    /// Remove a service from the server.
    fn remove_service(&mut self, service_id: u8) -> ErpcResult<()>;

    /// Poll and process at most one incoming request.
    fn poll(&mut self) -> ErpcResult<bool>;

    /// Run until stopped or the transport disconnects.
    fn run(&mut self) -> ErpcResult<()>;

    /// Stop the server.
    fn stop(&mut self) -> ErpcResult<()>;

    /// Check if server is running.
    fn is_running(&self) -> bool;
}

/// Blocking service trait for handling method calls.
///
/// `id()` is the identifier the service reports; `serves(m, s, codec, r)`
/// tells whether a call of method `m` under sequence number `s`, made with the
/// codec reference `codec`, may end with `r`. A call of `handle_invocation`
/// is such a call, with a reference whose value and final value are those of
/// the codec it was given.
pub trait BlockingService: Send + Sync {
    spec fn id(&self) -> u8;

    spec fn serves(
        &self,
        method_id: u8,
        sequence: u32,
        codec: &mut BasicCodec,
        r: ErpcResult<()>,
    ) -> bool;

    /// Get service ID.
    fn service_id(&self) -> (r: u8)
        ensures
            r == self.id(),
    ;

    /// Handle method invocation: read the arguments from `codec` and, for a
    /// two-way call, write the reply into it.
    fn handle_invocation(&self, method_id: u8, sequence: u32, codec: &mut BasicCodec) -> (r:
        ErpcResult<()>)
        requires
            old(codec).wf(),
        ensures
            exists|c: &mut BasicCodec|
                *c == *old(codec) && *final(c) == *final(codec) && #[trigger] self.serves(
                    method_id,
                    sequence,
                    c,
                    r,
                ),
    ;

    /// Get list of supported method IDs.
    fn supported_methods(&self) -> Vec<u8>;
}

/// A boxed service behaves as the service it holds, so that services of
/// different kinds can be held by one server.
impl BlockingService for Box<dyn BlockingService> {
    open spec fn id(&self) -> u8 {
        (**self).id()
    }

    open spec fn serves(
        &self,
        method_id: u8,
        sequence: u32,
        codec: &mut BasicCodec,
        r: ErpcResult<()>,
    ) -> bool {
        (**self).serves(method_id, sequence, codec, r)
    }

    fn service_id(&self) -> (r: u8) {
        (**self).service_id()
    }

    fn handle_invocation(&self, method_id: u8, sequence: u32, codec: &mut BasicCodec) -> (r:
        ErpcResult<()>) {
        let r = (**self).handle_invocation(method_id, sequence, codec);
        proof {
            let c = choose|c: &mut BasicCodec|
                *c == *old(codec) && *final(c) == *final(codec) && (**self).serves(
                    method_id,
                    sequence,
                    c,
                    r,
                );
            assert(self.serves(method_id, sequence, c, r));
        }
        r
    }

    fn supported_methods(&self) -> Vec<u8> {
        (**self).supported_methods()
    }
}

/// Outcome of the checks made on a request before a service handles it: the
/// request header, or the error that rejects the request.
pub open spec fn admission(data: Seq<u8>, service_ids: Set<u8>) -> Result<MessageInfo, ErpcError> {
    match decode_header(data) {
        Err(e) => Err(ErpcError::Codec(e)),
        Ok(info) => {
            if info.message_type != MessageType::Invocation && info.message_type
                != MessageType::Oneway {
                Err(ErpcError::Request(RequestError::InvalidMessageType))
            } else if !service_ids.contains(info.service) {
                Err(ErpcError::Request(RequestError::InvalidServiceId(info.service as u32)))
            } else {
                Ok(info)
            }
        },
    }
}

/// A request as the client encodes it passes the server's checks exactly when
/// its service is registered, and then carries the client's header fields.
pub proof fn law_request_admission(
    service: u8,
    method: u8,
    is_oneway: bool,
    sequence: u32,
    data: Seq<u8>,
    service_ids: Set<u8>,
)
    ensures
        ({
            let message_type = if is_oneway {
                MessageType::Oneway
            } else {
                MessageType::Invocation
            };
            let outcome = admission(
                request_message(service, method, is_oneway, sequence, data),
                service_ids,
            );
            &&& service_ids.contains(service) ==> outcome == Ok::<MessageInfo, ErpcError>(
                MessageInfo { message_type, service, request: method, sequence },
            )
            &&& !service_ids.contains(service) ==> outcome == Err::<MessageInfo, ErpcError>(
                ErpcError::Request(RequestError::InvalidServiceId(service as u32)),
            )
        }),
{
    let message_type = if is_oneway {
        MessageType::Oneway
    } else {
        MessageType::Invocation
    };
    crate::codec::lemma_header_roundtrip(
        MessageInfo { message_type, service, request: method, sequence },
        data,
    );
}

/// A two-way call completes: the server admits the client's request for a
/// registered service, and a reply written under the sequence number the
/// server read is accepted by the client, which gets the reply payload.
pub proof fn law_call_roundtrip(
    service: u8,
    method: u8,
    sequence: u32,
    arguments: Seq<u8>,
    reply_payload: Seq<u8>,
    service_ids: Set<u8>,
)
    requires
        service_ids.contains(service),
    ensures
        ({
            let outcome = admission(
                request_message(service, method, false, sequence, arguments),
                service_ids,
            );
            &&& outcome is Ok
            &&& outcome->Ok_0.message_type == MessageType::Invocation
            &&& reply_outcome(
                crate::codec::encode_header(
                    MessageInfo {
                        message_type: MessageType::Reply,
                        service,
                        request: method,
                        sequence: outcome->Ok_0.sequence,
                    },
                ) + reply_payload,
                sequence,
            ) == Ok::<Seq<u8>, ErpcError>(reply_payload)
        }),
{
    law_request_admission(service, method, false, sequence, arguments, service_ids);
    crate::blocking_client::law_reply_matching(
        MessageType::Reply,
        service,
        method,
        sequence,
        sequence,
        reply_payload,
    );
}

/// The registry that results from adding `services`, in order, to `registry`;
/// a later service replaces an earlier one with the same identifier.
pub open spec fn register_all<S: BlockingService>(registry: Map<u8, S>, services: Seq<S>) -> Map<
    u8,
    S,
>
    decreases services.len(),
{
    if services.len() == 0 {
        registry
    } else {
        register_all(registry, services.drop_last()).insert(
            services.last().id(),
            services.last(),
        )
    }
}

/// The outcome of processing a request, with the reply as a byte sequence.
pub open spec fn reply_view(r: ErpcResult<Option<Vec<u8>>>) -> Result<Option<Seq<u8>>, ErpcError> {
    match r {
        Ok(Some(v)) => Ok(Some(v@)),
        Ok(None) => Ok(None),
        Err(e) => Err(e),
    }
}

/// Whether the admitted request `data`, with header `info`, may end with `out`
/// when the service of its identifier is handed the codec reference `codec`
/// (positioned after the header), returns `hr` and leaves the codec as
/// `after`: the handler's error, the bytes the handler left in the codec for a
/// two-way call, or nothing for a oneway call.
pub open spec fn dispatched<S: BlockingService>(
    registry: Map<u8, S>,
    info: MessageInfo,
    data: Seq<u8>,
    codec: &mut BasicCodec,
    hr: ErpcResult<()>,
    after: BasicCodec,
    out: Result<Option<Seq<u8>>, ErpcError>,
) -> bool {
    &&& (*codec).wf()
    &&& (*codec).bytes() == data
    &&& (*codec).remaining() == data.skip(8)
    &&& registry[info.service].serves(info.request, info.sequence, codec, hr)
    &&& out == match hr {
        Err(e) => Err::<Option<Seq<u8>>, ErpcError>(e),
        Ok(_) => if info.message_type == MessageType::Invocation {
            Ok::<Option<Seq<u8>>, ErpcError>(Some(after.bytes()))
        } else {
            Ok::<Option<Seq<u8>>, ErpcError>(None)
        },
    }
}

/// A two-way request for a method of a registered service reaches that
/// method's handler, with the request's sequence number and a codec holding
/// the request positioned after its header; the reply is what the handler
/// left in the codec, or the handler's error. A request for a method without
/// a handler fails with the unknown-method error.
pub proof fn law_dispatch<H: BlockingMethodHandler>(
    registry: Map<u8, BlockingBaseService<H>>,
    service: u8,
    method: u8,
    sequence: u32,
    arguments: Seq<u8>,
    codec: &mut BasicCodec,
    hr: ErpcResult<()>,
    after: BasicCodec,
    out: Result<Option<Seq<u8>>, ErpcError>,
)
    requires
        registry.contains_key(service),
    ensures
        ({
            let data = request_message(service, method, false, sequence, arguments);
            let info = MessageInfo {
                message_type: MessageType::Invocation,
                service,
                request: method,
                sequence,
            };
            &&& admission(data, registry.dom()) == Ok::<MessageInfo, ErpcError>(info)
            &&& dispatched(registry, info, data, codec, hr, after, out) <==> {
                &&& old(codec).wf()
                &&& old(codec).bytes() == data
                &&& old(codec).remaining() == arguments
                &&& if registry[service].handlers().contains_key(method) {
                    registry[service].handlers()[method].handles(sequence, codec, hr)
                } else {
                    hr == Err::<(), ErpcError>(
                        ErpcError::Request(RequestError::InvalidMethodId(method as u32)),
                    )
                }
                &&& out == match hr {
                    Err(e) => Err::<Option<Seq<u8>>, ErpcError>(e),
                    Ok(_) => Ok::<Option<Seq<u8>>, ErpcError>(Some(after.bytes())),
                }
            }
        }),
{
    let info = MessageInfo {
        message_type: MessageType::Invocation,
        service,
        request: method,
        sequence,
    };
    law_request_admission(service, method, false, sequence, arguments, registry.dom());
    crate::codec::lemma_header_roundtrip(info, arguments);
    assert(request_message(service, method, false, sequence, arguments).skip(8) =~= arguments);
}

/// Whether a server, on the receive outcome `received` and the processing
/// outcome `out` of what it received, may take its transport from `before` to
/// `after`, hand `send` (the reply and the send's outcome) to the transport
/// and return `r`: a timeout gives `Ok(false)` and another receive error is
/// returned, both without touching the transport; a failed processing gives
/// its error and a oneway call `Ok(true)`, again without touching the
/// transport; the reply of a two-way call is sent, and the send's error is
/// returned or `Ok(true)`.
pub open spec fn handled<T: BlockingTransport>(
    received: Result<Seq<u8>, ErpcError>,
    out: Option<Result<Option<Seq<u8>>, ErpcError>>,
    before: T,
    after: T,
    send: Option<(Seq<u8>, ErpcResult<()>)>,
    r: ErpcResult<bool>,
) -> bool {
    match received {
        Err(e) => {
            &&& after == before
            &&& send is None
            &&& out is None
            &&& r == if e == ErpcError::Transport(TransportError::Timeout) {
                Ok::<bool, ErpcError>(false)
            } else {
                Err::<bool, ErpcError>(e)
            }
        },
        Ok(_) => out matches Some(o) && match o {
            Err(e) => after == before && send is None && r == Err::<bool, ErpcError>(e),
            Ok(None) => after == before && send is None && r == Ok::<bool, ErpcError>(true),
            Ok(Some(reply)) => send matches Some((bytes, s)) && {
                &&& bytes == reply
                &&& after.received() == before.received()
                &&& s is Ok ==> after.sent() == before.sent().push(reply)
                &&& r == match s {
                    Ok(_) => Ok::<bool, ErpcError>(true),
                    Err(e) => Err::<bool, ErpcError>(e),
                }
            },
        },
    }
}

/// One round of a serving loop: the transport was found disconnected, the
/// predicate declined, or a poll was made with the given outcome.
pub enum ServeStep {
    LinkClosed,
    Declined,
    Polled(ErpcResult<bool>),
}

/// Whether a poll outcome lets the serving loop go on: success or a timeout.
pub open spec fn continues(p: ErpcResult<bool>) -> bool {
    p is Ok || p == Err::<bool, ErpcError>(ErpcError::Transport(TransportError::Timeout))
}

/// Whether `log` is the record of one serving loop: every round but the last
/// polled and went on; the last round stopped the loop (the transport was
/// disconnected, the predicate declined or a poll failed otherwise than by a
/// timeout), unless the loop ran out of rounds.
pub open spec fn serve_run(log: Seq<ServeStep>) -> bool {
    &&& log.len() > 0
    &&& forall|i: int|
        0 <= i < log.len() - 1 ==> (#[trigger] log[i] matches ServeStep::Polled(p) && continues(p))
    &&& (log.last() matches ServeStep::Polled(p) && continues(p)) ==> log.len() == MAX_SERVE_ROUNDS
}

/// Upper bound on the polling rounds of one `run_while`, which gives the
/// serving loop its termination measure. Far beyond any realistic lifetime of
/// a server; running out of rounds stops the server.
pub const MAX_SERVE_ROUNDS: u64 = 0xffff_ffff_ffff_ffff;

/// Simple single-threaded blocking server implementation.
pub struct BlockingSimpleServer<T, F, S> where
    T: BlockingTransport,
    F: CodecFactory,
    S: BlockingService,
 {
    transport: T,
    codec_factory: F,
    services: HashMap<u8, S>,
    running: bool,
    last_send: Ghost<Option<(Seq<u8>, ErpcResult<()>)>>,
    last_outcome: Ghost<Option<Result<Option<Seq<u8>>, ErpcError>>>,
    serve_log: Ghost<Seq<ServeStep>>,
}

impl<T, F, S> BlockingSimpleServer<T, F, S> where
    T: BlockingTransport + 'static,
    F: CodecFactory + 'static,
    S: BlockingService,
 {
    /// The transport.
    pub closed spec fn link(&self) -> T {
        self.transport
    }

    /// The codec factory.
    pub closed spec fn factory(&self) -> F {
        self.codec_factory
    }

    /// The registered services, by identifier.
    pub closed spec fn registry(&self) -> Map<u8, S> {
        self.services@
    }

    /// Whether the server is running.
    pub closed spec fn running(&self) -> bool {
        self.running
    }

    /// The reply handed to the transport while handling the latest received
    /// message, with the send's outcome; `None` when nothing was sent.
    pub closed spec fn last_send(&self) -> Option<(Seq<u8>, ErpcResult<()>)> {
        self.last_send@
    }

    /// The outcome of processing the latest received message; `None` when
    /// the latest receive failed.
    pub closed spec fn last_outcome(&self) -> Option<Result<Option<Seq<u8>>, ErpcError>> {
        self.last_outcome@
    }

    /// The rounds of the latest serving loop.
    pub closed spec fn serve_log(&self) -> Seq<ServeStep> {
        self.serve_log@
    }

    /// Create new simple blocking server.
    pub fn new(transport: T, codec_factory: F) -> (r: Self)
        ensures
            r.link() == transport,
            r.factory() == codec_factory,
            r.registry() == Map::<u8, S>::empty(),
            !r.running(),
            r.last_send() is None,
            r.last_outcome() is None,
            r.serve_log() == Seq::<ServeStep>::empty(),
    {
        BlockingSimpleServer {
            transport,
            codec_factory,
            services: HashMap::new(),
            running: false,
            last_send: Ghost(None),
            last_outcome: Ghost(None),
            serve_log: Ghost(Seq::empty()),
        }
    }

    /// Decodes a request, routes it to its service and returns the reply for a
    /// two-way call.
    fn process_request(&self, data: Vec<u8>) -> (r: ErpcResult<Option<Vec<u8>>>)
        ensures
            match admission(data@, self.registry().dom()) {
                Err(e) => r == Err::<Option<Vec<u8>>, ErpcError>(e),
                Ok(info) => exists|c: &mut BasicCodec, hr: ErpcResult<()>, after: BasicCodec|
                    *final(c) == after && #[trigger] dispatched(
                        self.registry(),
                        info,
                        data@,
                        c,
                        hr,
                        after,
                        reply_view(r),
                    ),
            },
    {
        let ghost bytes = data@;
        let mut codec = self.codec_factory.create_from_data(data);
        let message_info = match codec.start_read_message() {
            Ok(info) => info,
            Err(e) => return Err(e),
        };

        match message_info.message_type {
            MessageType::Invocation | MessageType::Oneway => {},
            _ => return Err(ErpcError::Request(RequestError::InvalidMessageType)),
        }

        let service = match self.services.get(&message_info.service) {
            Some(s) => s,
            None => {
                return Err(
                    ErpcError::Request(
                        RequestError::InvalidServiceId(message_info.service as u32),
                    ),
                );
            },
        };

        let ghost before = codec;
        let handled = service.handle_invocation(
            message_info.request,
            message_info.sequence,
            &mut codec,
        );
        let ghost c = choose|c: &mut BasicCodec|
            *c == before && *final(c) == codec && service.serves(
                message_info.request,
                message_info.sequence,
                c,
                handled,
            );
        let r = match handled {
            Ok(()) => if message_info.message_type == MessageType::Invocation {
                Ok(Some(copy_bytes(codec.as_bytes())))
            } else {
                Ok(None)
            },
            Err(e) => Err(e),
        };
        proof {
            assert(dispatched(self.registry(), message_info, bytes, c, handled, codec, reply_view(r)));
        }
        r
    }

    /// Handles the outcome of one receive: a timeout gives `Ok(false)`, another
    /// receive error is returned, and a received request is processed, its
    /// reply (for a two-way call) sent back, and `Ok(true)` returned unless
    /// processing or sending failed.
    pub fn handle_received(&mut self, received: ErpcResult<Vec<u8>>) -> (r: ErpcResult<bool>)
        ensures
            handled(
                received_view(received),
                final(self).last_outcome(),
                old(self).link(),
                final(self).link(),
                final(self).last_send(),
                r,
            ),
            received matches Ok(d) ==> match admission(d@, old(self).registry().dom()) {
                Err(e) => final(self).last_outcome() == Some(
                    Err::<Option<Seq<u8>>, ErpcError>(e),
                ),
                Ok(info) => exists|c: &mut BasicCodec, hr: ErpcResult<()>, after: BasicCodec|
                    *final(c) == after && #[trigger] dispatched(
                        old(self).registry(),
                        info,
                        d@,
                        c,
                        hr,
                        after,
                        final(self).last_outcome()->Some_0,
                    ),
            },
            final(self).registry() == old(self).registry(),
            final(self).factory() == old(self).factory(),
            final(self).running() == old(self).running(),
            final(self).serve_log() == old(self).serve_log(),
            final(self).link().receptions() == old(self).link().receptions(),
    {
        self.last_send = Ghost(None);
        self.last_outcome = Ghost(None);
        let data = match received {
            Ok(data) => data,
            Err(ErpcError::Transport(TransportError::Timeout)) => return Ok(false),
            Err(e) => return Err(e),
        };
        let reply = self.process_request(data);
        self.last_outcome = Ghost(Some(reply_view(reply)));
        match reply {
            Err(e) => Err(e),
            Ok(None) => Ok(true),
            Ok(Some(response)) => {
                let sent = self.transport.send(response.as_slice());
                self.last_send = Ghost(Some((response@, sent)));
                match sent {
                    Ok(()) => Ok(true),
                    Err(e) => Err(e),
                }
            },
        }
    }

    /// Run while the provided predicate returns true, the server is running
    /// and the transport is connected. A poll that times out is retried; any
    /// other poll failure stops the loop. Each round is recorded in
    /// `serve_log()`: a disconnected transport, a predicate that declined, or
    /// a poll with its outcome.
    pub fn run_while<P>(&mut self, predicate: P) -> (r: ErpcResult<()>) where P: Fn() -> bool
        requires
            call_requires(predicate, ()),
        ensures
            r is Ok,
            !final(self).running(),
            final(self).registry() == old(self).registry(),
            final(self).factory() == old(self).factory(),
            serve_run(final(self).serve_log()),
            final(self).serve_log().last() is LinkClosed ==> !final(self).link().open(),
            final(self).serve_log().last() is Declined ==> final(self).link().open()
                && call_ensures(predicate, (), false),
            (exists|i: int|
                0 <= i < final(self).serve_log().len() && #[trigger] final(self).serve_log()[i] is Polled) ==> call_ensures(predicate, (), true),
    {
        self.running = true;
        self.serve_log = Ghost(Seq::empty());
        let mut rounds_left: u64 = MAX_SERVE_ROUNDS;

        loop
            invariant_except_break
                self.serve_log@.len() == MAX_SERVE_ROUNDS - rounds_left,
                forall|i: int|
                    0 <= i < self.serve_log@.len() ==> (#[trigger] self.serve_log@[i] matches ServeStep::Polled(p) && continues(p)),
                self.serve_log@.len() > 0 ==> call_ensures(predicate, (), true),
            invariant
                call_requires(predicate, ()),
                self.running,
                self.registry() == old(self).registry(),
                self.factory() == old(self).factory(),
            ensures
                self.registry() == old(self).registry(),
                self.factory() == old(self).factory(),
                serve_run(self.serve_log@),
                self.serve_log@.last() is LinkClosed ==> !self.transport.open(),
                self.serve_log@.last() is Declined ==> self.transport.open() && call_ensures(
                    predicate,
                    (),
                    false,
                ),
                (exists|i: int|
                    0 <= i < self.serve_log@.len() && #[trigger] self.serve_log@[i] is Polled)
                    ==> call_ensures(predicate, (), true),
            decreases rounds_left,
        {
            if !(self.running && self.transport.is_connected()) {
                proof {
                    self.serve_log@ = self.serve_log@.push(ServeStep::LinkClosed);
                }
                break;
            }
            if !predicate() {
                proof {
                    self.serve_log@ = self.serve_log@.push(ServeStep::Declined);
                }
                break;
            }
            if rounds_left == 0 {
                break;
            }
            rounds_left = rounds_left - 1;
            let polled = self.poll();
            proof {
                self.serve_log@ = self.serve_log@.push(ServeStep::Polled(polled));
            }
            match polled {
                Ok(_) => {},
                Err(ErpcError::Transport(TransportError::Timeout)) => {},
                Err(_) => {
                    break;
                },
            }
        }

        self.running = false;
        Ok(())
    }

    fn insert_entry(&mut self, service: S) -> (r: ErpcResult<()>)
        ensures
            r is Ok,
            final(self).registry() == old(self).registry().insert(service.id(), service),
            final(self).link() == old(self).link(),
            final(self).factory() == old(self).factory(),
            final(self).running() == old(self).running(),
    {
        let service_id = service.service_id();
        self.services.insert(service_id, service);
        Ok(())
    }
}

impl<T, F, S> BlockingServer for BlockingSimpleServer<T, F, S> where
    T: BlockingTransport + 'static,
    F: CodecFactory + 'static,
    S: BlockingService,
 {
    type Service = S;

    /// Registers `service` under its identifier, replacing any service there.
    fn add_service(&mut self, service: S) -> (r: ErpcResult<()>)
        ensures
            r is Ok,
            final(self).registry() == old(self).registry().insert(service.id(), service),
            final(self).link() == old(self).link(),
            final(self).factory() == old(self).factory(),
            final(self).running() == old(self).running(),
    {
        self.insert_entry(service)
    }

    /// Unregisters the service with identifier `service_id`.
    fn remove_service(&mut self, service_id: u8) -> (r: ErpcResult<()>)
        ensures
            old(self).registry().contains_key(service_id) ==> r is Ok && final(self).registry()
                == old(self).registry().remove(service_id),
            !old(self).registry().contains_key(service_id) ==> r == Err::<(), ErpcError>(
                ErpcError::Request(RequestError::InvalidServiceId(service_id as u32)),
            ) && final(self).registry() == old(self).registry(),
            final(self).link() == old(self).link(),
            final(self).factory() == old(self).factory(),
            final(self).running() == old(self).running(),
    {
        match self.services.remove(&service_id) {
            Some(_) => Ok(()),
            None => Err(ErpcError::Request(RequestError::InvalidServiceId(service_id as u32))),
        }
    }

    /// Receives one message and handles it as [`Self::handle_received`] does.
    fn poll(&mut self) -> (r: ErpcResult<bool>)
        ensures
            final(self).registry() == old(self).registry(),
            final(self).factory() == old(self).factory(),
            final(self).running() == old(self).running(),
            final(self).serve_log() == old(self).serve_log(),
            exists|mid: T, got: Result<Seq<u8>, ErpcError>|
                {
                    &&& mid.sent() == old(self).link().sent()
                    &&& mid.receptions() == old(self).link().receptions().push(got)
                    &&& final(self).link().receptions() == mid.receptions()
                    &&& got matches Ok(d) ==> mid.received() == old(self).link().received().push(d)
                    &&& #[trigger] handled(
                        got,
                        final(self).last_outcome(),
                        mid,
                        final(self).link(),
                        final(self).last_send(),
                        r,
                    )
                    &&& got matches Ok(d) ==> match admission(d, old(self).registry().dom()) {
                        Err(e) => final(self).last_outcome() == Some(
                            Err::<Option<Seq<u8>>, ErpcError>(e),
                        ),
                        Ok(info) => exists|
                            c: &mut BasicCodec,
                            hr: ErpcResult<()>,
                            after: BasicCodec,
                        |
                            *final(c) == after && #[trigger] dispatched(
                                old(self).registry(),
                                info,
                                d,
                                c,
                                hr,
                                after,
                                final(self).last_outcome()->Some_0,
                            ),
                    }
                },
    {
        let received = self.transport.receive();
        let ghost mid = self.transport;
        let ghost got = received_view(received);
        let r = self.handle_received(received);
        proof {
            assert(handled(got, self.last_outcome(), mid, self.link(), self.last_send(), r));
        }
        r
    }

    /// Runs until stopped or the transport disconnects.
    fn run(&mut self) -> (r: ErpcResult<()>)
        ensures
            r is Ok,
            !final(self).running(),
            final(self).registry() == old(self).registry(),
            final(self).factory() == old(self).factory(),
            serve_run(final(self).serve_log()),
            !(final(self).serve_log().last() is Declined),
            final(self).serve_log().last() is LinkClosed ==> !final(self).link().open(),
    {
        self.run_while(|| -> (b: bool) ensures b { true })
    }

    /// Stops the server and closes its transport.
    fn stop(&mut self) -> (r: ErpcResult<()>)
        ensures
            !final(self).running(),
            final(self).registry() == old(self).registry(),
            final(self).factory() == old(self).factory(),
            r is Ok ==> !final(self).link().open(),
            old(self).link().close_never_fails() ==> r is Ok,
    {
        self.running = false;
        self.transport.close()
    }

    fn is_running(&self) -> (r: bool)
        ensures
            r == self.running(),
    {
        self.running
    }
}

/// Blocking method handler trait.
///
/// `handles(s, codec, r)` tells whether a call under sequence number `s`, made
/// with the codec reference `codec`, may end with `r`. A call of `handle` is
/// such a call, with a reference whose value and final value are those of the
/// codec it was given.
pub trait BlockingMethodHandler: Send + Sync {
    spec fn handles(&self, sequence: u32, codec: &mut BasicCodec, r: ErpcResult<()>) -> bool;

    /// Handle method call.
    fn handle(&self, sequence: u32, codec: &mut BasicCodec) -> (r: ErpcResult<()>)
        requires
            old(codec).wf(),
        ensures
            exists|c: &mut BasicCodec|
                *c == *old(codec) && *final(c) == *final(codec) && #[trigger] self.handles(
                    sequence,
                    c,
                    r,
                ),
    ;
}

/// A boxed handler behaves as the handler it holds, so that handlers of
/// different kinds can serve one service.
impl BlockingMethodHandler for Box<dyn BlockingMethodHandler> {
    open spec fn handles(&self, sequence: u32, codec: &mut BasicCodec, r: ErpcResult<()>) -> bool {
        (**self).handles(sequence, codec, r)
    }

    fn handle(&self, sequence: u32, codec: &mut BasicCodec) -> (r: ErpcResult<()>) {
        let r = (**self).handle(sequence, codec);
        proof {
            let c = choose|c: &mut BasicCodec|
                *c == *old(codec) && *final(c) == *final(codec) && (**self).handles(
                    sequence,
                    c,
                    r,
                );
            assert(self.handles(sequence, c, r));
        }
        r
    }
}

/// Blocking base service implementation with method routing.
pub struct BlockingBaseService<H: BlockingMethodHandler> {
    service_id: u8,
    methods: HashMap<u8, H>,
}

impl<H: BlockingMethodHandler> BlockingBaseService<H> {
    /// The handlers, by method identifier.
    pub closed spec fn handlers(&self) -> Map<u8, H> {
        self.methods@
    }

    /// Identifiers of the methods with a handler.
    pub open spec fn method_ids(&self) -> Set<u8> {
        self.handlers().dom()
    }

    /// Create new blocking base service.
    pub fn new(service_id: u8) -> (r: Self)
        ensures
            r.id() == service_id,
            r.handlers() == Map::<u8, H>::empty(),
    {
        BlockingBaseService { service_id, methods: HashMap::new() }
    }

    /// Add method handler, replacing any handler of `method_id`.
    pub fn add_method(&mut self, method_id: u8, handler: H)
        ensures
            final(self).id() == old(self).id(),
            final(self).handlers() == old(self).handlers().insert(method_id, handler),
    {
        self.methods.insert(method_id, handler);
    }
}

impl<H: BlockingMethodHandler> BlockingService for BlockingBaseService<H> {
    closed spec fn id(&self) -> u8 {
        self.service_id
    }

    /// A call of a method with a handler is whatever that handler makes of
    /// it; a call of another method fails with the unknown-method error.
    open spec fn serves(
        &self,
        method_id: u8,
        sequence: u32,
        codec: &mut BasicCodec,
        r: ErpcResult<()>,
    ) -> bool {
        if self.handlers().contains_key(method_id) {
            self.handlers()[method_id].handles(sequence, codec, r)
        } else {
            r == Err::<(), ErpcError>(
                ErpcError::Request(RequestError::InvalidMethodId(method_id as u32)),
            )
        }
    }

    fn service_id(&self) -> (r: u8) {
        self.service_id
    }

    /// Routes the call to the handler of `method_id`; without one, the codec
    /// is left as it was.
    fn handle_invocation(&self, method_id: u8, sequence: u32, codec: &mut BasicCodec) -> (r:
        ErpcResult<()>)
        ensures
            !self.method_ids().contains(method_id) ==> *final(codec) == *old(codec),
    {
        match self.methods.get(&method_id) {
            Some(handler) => {
                let r = handler.handle(sequence, codec);
                proof {
                    let c = choose|c: &mut BasicCodec|
                        *c == *old(codec) && *final(c) == *final(codec) && handler.handles(
                            sequence,
                            c,
                            r,
                        );
                    assert(self.serves(method_id, sequence, c, r));
                }
                r
            },
            None => {
                let r = Err(ErpcError::Request(RequestError::InvalidMethodId(method_id as u32)));
                proof {
                    let c = choose|c: &mut BasicCodec| *c == *old(codec) && *final(c) == *final(codec);
                    assert(*codec == *old(codec));
                    assert(self.serves(method_id, sequence, c, r));
                }
                r
            },
        }
    }

    /// The identifiers of all methods with a handler, each once, in
    /// ascending order.
    fn supported_methods(&self) -> (r: Vec<u8>)
        ensures
            r@.to_set() == self.method_ids(),
            forall|i: int, j: int| 0 <= i < j < r@.len() ==> r@[i] < r@[j],
    {
        let mut out: Vec<u8> = Vec::new();
        let mut id: u16 = 0;
        while id < 256
            invariant
                id <= 256,
                forall|k: u8| #[trigger] out@.contains(k) <==> (k < id && self.methods@.dom().contains(k)),
                forall|i: int, j: int| 0 <= i < j < out@.len() ==> out@[i] < out@[j],
                forall|i: int| 0 <= i < out@.len() ==> out@[i] < id,
            decreases 256 - id,
        {
            let k = id as u8;
            let ghost before = out@;
            if self.methods.contains_key(&k) {
                out.push(k);
                proof {
                    assert forall|x: u8| #[trigger] out@.contains(x) <==> (before.contains(x) || x == k) by {
                        if x == k {
                            assert(out@[out@.len() - 1] == k);
                        }
                        if before.contains(x) {
                            let j = choose|j: int| 0 <= j < before.len() && before[j] == x;
                            assert(out@[j] == x);
                        }
                    }
                }
            }
            id = id + 1;
        }
        proof {
            assert(out@.to_set() =~= self.methods@.dom());
        }
        out
    }
}

/// Function-based blocking method handler.
pub struct BlockingFunctionHandler<F> where
    F: Fn(u32, &mut BasicCodec) -> ErpcResult<()> + Send + Sync,
 {
    func: F,
}

impl<F> BlockingFunctionHandler<F> where F: Fn(u32, &mut BasicCodec) -> ErpcResult<()> + Send + Sync {
    #[verifier::type_invariant]
    spec fn callable(self) -> bool {
        forall|sequence: u32, codec: &mut BasicCodec| call_requires(self.func, (sequence, codec))
    }

    /// The function that handles calls.
    pub closed spec fn function(&self) -> F {
        self.func
    }

    /// Create new blocking function handler.
    pub fn new(func: F) -> (r: Self)
        requires
            forall|sequence: u32, codec: &mut BasicCodec| call_requires(func, (sequence, codec)),
        ensures
            r.function() == func,
    {
        BlockingFunctionHandler { func }
    }
}

impl<F> BlockingMethodHandler for BlockingFunctionHandler<F> where
    F: Fn(u32, &mut BasicCodec) -> ErpcResult<()> + Send + Sync,
 {
    /// A call is whatever the function may make of it.
    open spec fn handles(&self, sequence: u32, codec: &mut BasicCodec, r: ErpcResult<()>) -> bool {
        call_ensures(self.function(), (sequence, codec), r)
    }

    /// Calls the function with the sequence number and the codec.
    fn handle(&self, sequence: u32, codec: &mut BasicCodec) -> (r: ErpcResult<()>) {
        proof {
            use_type_invariant(self);
        }
        let r = (self.func)(sequence, codec);
        proof {
            assert(exists|c: &mut BasicCodec|
                *c == *old(codec) && *final(c) == *final(codec) && #[trigger] call_ensures(
                    self.func,
                    (sequence, c),
                    r,
                ));
            let c = choose|c: &mut BasicCodec|
                *c == *old(codec) && *final(c) == *final(codec) && call_ensures(
                    self.func,
                    (sequence, c),
                    r,
                );
            assert(self.handles(sequence, c, r));
        }
        r
    }
}

/// Server builder for easy blocking configuration.
pub struct BlockingServerBuilder<T, F, S> where
    T: BlockingTransport,
    F: CodecFactory,
    S: BlockingService,
 {
    transport: Option<T>,
    codec_factory: Option<F>,
    services: Vec<S>,
}

impl<T, F, S> BlockingServerBuilder<T, F, S> where
    T: BlockingTransport + 'static,
    F: CodecFactory + 'static,
    S: BlockingService,
 {
    /// The transport set so far.
    pub closed spec fn chosen_transport(&self) -> Option<T> {
        self.transport
    }

    /// The codec factory set so far.
    pub closed spec fn chosen_factory(&self) -> Option<F> {
        self.codec_factory
    }

    /// The services added so far, in order.
    pub closed spec fn pending_services(&self) -> Seq<S> {
        self.services@
    }

    /// Create new blocking server builder.
    pub fn new() -> (r: Self)
        ensures
            r.chosen_transport() == None::<T>,
            r.chosen_factory() == None::<F>,
            r.pending_services() == Seq::<S>::empty(),
    {
        BlockingServerBuilder { transport: None, codec_factory: None, services: Vec::new() }
    }

    /// Set transport.
    pub fn transport(self, transport: T) -> (r: Self)
        ensures
            r.chosen_transport() == Some(transport),
            r.chosen_factory() == self.chosen_factory(),
            r.pending_services() == self.pending_services(),
    {
        let mut b = self;
        b.transport = Some(transport);
        b
    }

    /// Set codec factory.
    pub fn codec_factory(self, codec_factory: F) -> (r: Self)
        ensures
            r.chosen_transport() == self.chosen_transport(),
            r.chosen_factory() == Some(codec_factory),
            r.pending_services() == self.pending_services(),
    {
        let mut b = self;
        b.codec_factory = Some(codec_factory);
        b
    }

    /// Add service.
    pub fn service(self, service: S) -> (r: Self)
        ensures
            r.chosen_transport() == self.chosen_transport(),
            r.chosen_factory() == self.chosen_factory(),
            r.pending_services() == self.pending_services().push(service),
    {
        let mut b = self;
        b.services.push(service);
        b
    }

    /// Build server: fails when the transport or the codec factory is missing;
    /// otherwise every added service is registered under its identifier, a
    /// later one replacing an earlier one with the same identifier.
    pub fn build(self) -> (r: Result<BlockingSimpleServer<T, F, S>, &'static str>)
        ensures
            self.chosen_transport() is None ==> (r matches Err(m) && m@
                == "Transport not set"@),
            self.chosen_transport() is Some && self.chosen_factory() is None ==> (r matches Err(m)
                && m@ == "Codec factory not set"@),
            self.chosen_transport() is Some && self.chosen_factory() is Some ==> (r matches Ok(
                server,
            ) && {
                &&& server.link() == self.chosen_transport()->Some_0
                &&& server.factory() == self.chosen_factory()->Some_0
                &&& server.registry() == register_all(
                    Map::<u8, S>::empty(),
                    self.pending_services(),
                )
                &&& !server.running()
            }),
    {
        let transport = match self.transport {
            Some(t) => t,
            None => return Err("Transport not set"),
        };
        let codec_factory = match self.codec_factory {
            Some(f) => f,
            None => return Err("Codec factory not set"),
        };
        let mut server = BlockingSimpleServer::new(transport, codec_factory);

        let ghost all = self.services@;
        let mut rest = self.services;
        let ghost mut done: int = 0;
        while rest.len() > 0
            invariant
                0 <= done <= all.len(),
                rest@ == all.skip(done),
                server.registry() == register_all(Map::<u8, S>::empty(), all.take(done)),
                server.link() == self.transport->Some_0,
                server.factory() == self.codec_factory->Some_0,
                !server.running(),
            decreases rest.len(),
        {
            let service = rest.remove(0);
            let ghost added = service;
            proof {
                assert(all.take(done + 1).drop_last() =~= all.take(done));
                assert(all.take(done + 1).last() == added);
            }
            match server.insert_entry(service) {
                Ok(()) => {},
                Err(_) => return Err("Failed to add service"),
            }
            proof {
                let prefix = all.take(done + 1);
                assert(register_all(Map::<u8, S>::empty(), prefix) == register_all(
                    Map::<u8, S>::empty(),
                    prefix.drop_last(),
                ).insert(prefix.last().id(), prefix.last()));
                done = done + 1;
                assert(rest@ =~= all.skip(done));
            }
        }
        proof {
            assert(all.take(done) =~= all);
        }
        Ok(server)
    }
}

impl<T, F, S> Default for BlockingServerBuilder<T, F, S> where
    T: BlockingTransport + 'static,
    F: CodecFactory + 'static,
    S: BlockingService,
 {
    fn default() -> (r: Self)
        ensures
            r.chosen_transport() == None::<T>,
            r.chosen_factory() == None::<F>,
            r.pending_services() == Seq::<S>::empty(),
    {
        Self::new()
    }
}

} // verus!
