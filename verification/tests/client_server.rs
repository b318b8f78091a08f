use erpc_rust::codec::{BasicCodec, BasicCodecFactory, MessageInfo, MessageType};
use erpc_rust::server::blocking::{
    BlockingBaseService, BlockingFunctionHandler, BlockingMethodHandler, BlockingServer,
    BlockingServerBuilder, BlockingService, BlockingSimpleServer,
};
use erpc_rust::transport::blocking_memory::BlockingMemoryTransport;
use erpc_rust::transport::BlockingTransport;
use erpc_rust::{BlockingClientManager, CodecError, ErpcError, RequestError};

type Handler = Box<dyn BlockingMethodHandler>;

type Server = BlockingSimpleServer<BlockingMemoryTransport, BasicCodecFactory, BlockingBaseService<Handler>>;

fn doubler(id: u8) -> BlockingBaseService<Handler> {
    let mut service: BlockingBaseService<Handler> = BlockingBaseService::new(id);
    service.add_method(
        7,
        Box::new(BlockingFunctionHandler::new(|sequence, codec: &mut BasicCodec| {
            let v = codec.read_uint32()?;
            codec.start_write_message(&MessageInfo::new(MessageType::Reply, 2, 7, sequence))?;
            codec.write_uint32(v * 2)?;
            Ok(())
        })),
    );
    service
}

fn message(t: MessageType, service: u8, method: u8, sequence: u32, payload: &[u8]) -> Vec<u8> {
    let mut codec = BasicCodec::new();
    codec
        .start_write_message(&MessageInfo::new(t, service, method, sequence))
        .unwrap();
    codec.write_bytes(payload).unwrap();
    codec.as_bytes().to_vec()
}

#[test]
fn request_contexts_number_requests_consecutively() {
    let (a, _b) = BlockingMemoryTransport::new();
    let mut client = BlockingClientManager::new(a, BasicCodecFactory::new());
    let first = client.create_request(false);
    let second = client.create_request_with_service(5, true);
    assert_eq!(first.sequence, 1);
    assert_eq!(first.service_id, None);
    assert!(!first.is_oneway);
    assert_eq!(second.sequence, 2);
    assert_eq!(second.service_id, Some(5));
    assert!(second.is_oneway);
}

#[test]
fn oneway_request_puts_header_and_payload_on_the_link() {
    let (a, mut b) = BlockingMemoryTransport::new();
    let mut client = BlockingClientManager::new(a, BasicCodecFactory::new());
    let reply = client.perform_request(4, 6, true, vec![9, 8]).unwrap();
    assert!(reply.is_empty());
    let sent = BlockingTransport::receive(&mut b).unwrap();
    assert_eq!(sent, vec![1, 6, 4, 1, 1, 0, 0, 0, 9, 8]);
}

#[test]
fn reply_with_wrong_sequence_is_rejected() {
    let (a, _b) = BlockingMemoryTransport::new();
    let client = BlockingClientManager::new(a, BasicCodecFactory::new());
    let reply = message(MessageType::Reply, 1, 1, 3, &[]);
    assert_eq!(
        client.check_reply(reply, 4),
        Err(ErpcError::Request(RequestError::UnexpectedSequence { expected: 4, actual: 3 }))
    );
}

#[test]
fn non_reply_is_rejected() {
    let (a, _b) = BlockingMemoryTransport::new();
    let client = BlockingClientManager::new(a, BasicCodecFactory::new());
    let reply = message(MessageType::Invocation, 1, 1, 4, &[]);
    assert_eq!(
        client.check_reply(reply, 4),
        Err(ErpcError::Request(RequestError::InvalidMessageType))
    );
    assert_eq!(
        client.check_reply(vec![1, 2], 4),
        Err(ErpcError::Codec(CodecError::BufferUnderflow))
    );
}

#[test]
fn two_way_call_through_poll() {
    let (a, b) = BlockingMemoryTransport::new();
    let mut client = BlockingClientManager::new(a, BasicCodecFactory::new());
    let mut server = BlockingSimpleServer::new(b, BasicCodecFactory::new());
    server.add_service(doubler(2)).unwrap();

    client
        .send_request(&message(MessageType::Invocation, 2, 7, 1, &[21, 0, 0, 0]))
        .unwrap();
    assert_eq!(server.poll(), Ok(true));
    let reply = client.receive_response().unwrap();
    assert_eq!(client.check_reply(reply, 1).unwrap(), vec![42, 0, 0, 0]);
}

#[test]
fn poll_without_request_reports_nothing_done() {
    let (_a, b) = BlockingMemoryTransport::new();
    let mut server: Server = BlockingSimpleServer::new(b, BasicCodecFactory::new());
    assert_eq!(server.poll(), Ok(false));
}

#[test]
fn oneway_call_gets_no_reply() {
    let (mut a, b) = BlockingMemoryTransport::new();
    let mut server = BlockingSimpleServer::new(b, BasicCodecFactory::new());
    server.add_service(doubler(2)).unwrap();
    BlockingTransport::send(&mut a, &message(MessageType::Oneway, 2, 7, 1, &[1, 0, 0, 0]))
        .unwrap();
    assert_eq!(server.poll(), Ok(true));
    assert_eq!(
        BlockingTransport::receive(&mut a),
        Err(ErpcError::Transport(erpc_rust::TransportError::Timeout))
    );
}

#[test]
fn server_rejects_unknown_service_method_and_type() {
    let (mut a, b) = BlockingMemoryTransport::new();
    let mut server = BlockingSimpleServer::new(b, BasicCodecFactory::new());
    server.add_service(doubler(2)).unwrap();

    BlockingTransport::send(&mut a, &message(MessageType::Invocation, 3, 7, 1, &[])).unwrap();
    assert_eq!(server.poll(), Err(ErpcError::Request(RequestError::InvalidServiceId(3))));

    BlockingTransport::send(&mut a, &message(MessageType::Invocation, 2, 8, 1, &[])).unwrap();
    assert_eq!(server.poll(), Err(ErpcError::Request(RequestError::InvalidMethodId(8))));

    BlockingTransport::send(&mut a, &message(MessageType::Reply, 2, 7, 1, &[])).unwrap();
    assert_eq!(server.poll(), Err(ErpcError::Request(RequestError::InvalidMessageType)));
}

#[test]
fn remove_service_only_removes_registered_services() {
    let (_a, b) = BlockingMemoryTransport::new();
    let mut server = BlockingSimpleServer::new(b, BasicCodecFactory::new());
    server.add_service(doubler(2)).unwrap();
    assert_eq!(server.remove_service(2), Ok(()));
    assert_eq!(
        server.remove_service(2),
        Err(ErpcError::Request(RequestError::InvalidServiceId(2)))
    );
}

#[test]
fn stop_closes_the_transport() {
    let (_a, b) = BlockingMemoryTransport::new();
    let mut server: Server = BlockingSimpleServer::new(b, BasicCodecFactory::new());
    server.stop().unwrap();
    assert!(!server.is_running());
    assert_eq!(server.run(), Ok(()));
}

#[test]
fn builder_requires_transport_and_factory() {
    let missing_transport: Result<Server, _> =
        BlockingServerBuilder::new().codec_factory(BasicCodecFactory::new()).build();
    assert_eq!(missing_transport.err(), Some("Transport not set"));
    let (_a, b) = BlockingMemoryTransport::new();
    let missing_factory: Result<Server, _> =
        BlockingServerBuilder::new().transport(b).build();
    assert_eq!(missing_factory.err(), Some("Codec factory not set"));
}

#[test]
fn service_lists_its_methods() {
    let mut service = doubler(2);
    service.add_method(
        3,
        Box::new(BlockingFunctionHandler::new(|_sequence, _codec: &mut BasicCodec| Ok(()))),
    );
    assert_eq!(service.service_id(), 2);
    assert_eq!(service.supported_methods(), vec![3, 7]);
}

#[test]
fn later_service_with_same_id_replaces_earlier() {
    let (mut a, b) = BlockingMemoryTransport::new();
    let mut quiet = BlockingBaseService::new(2);
    quiet.add_method(
        7,
        BlockingFunctionHandler::new(|_sequence, codec: &mut BasicCodec| {
            codec.reset();
            Ok(())
        }),
    );
    let earlier: Box<dyn BlockingService> = Box::new(doubler(2));
    let later: Box<dyn BlockingService> = Box::new(quiet);
    let mut server = BlockingServerBuilder::new()
        .transport(b)
        .codec_factory(BasicCodecFactory::new())
        .service(earlier)
        .service(later)
        .build()
        .unwrap();
    BlockingTransport::send(&mut a, &message(MessageType::Invocation, 2, 7, 1, &[1, 0, 0, 0]))
        .unwrap();
    assert_eq!(server.poll(), Ok(true));
    assert_eq!(BlockingTransport::receive(&mut a).unwrap(), Vec::<u8>::new());
}

#[test]
fn handled_timeout_is_nothing_done_and_other_errors_pass_through() {
    let (_a, b) = BlockingMemoryTransport::new();
    let mut server: Server = BlockingSimpleServer::new(b, BasicCodecFactory::new());
    assert_eq!(
        server.handle_received(Err(ErpcError::Transport(erpc_rust::TransportError::Timeout))),
        Ok(false)
    );
    assert_eq!(
        server.handle_received(Err(ErpcError::Transport(erpc_rust::TransportError::Closed))),
        Err(ErpcError::Transport(erpc_rust::TransportError::Closed))
    );
}

#[test]
fn handled_request_sends_the_handler_reply() {
    let (mut a, b) = BlockingMemoryTransport::new();
    let mut server: Server = BlockingSimpleServer::new(b, BasicCodecFactory::new());
    server.add_service(doubler(2)).unwrap();
    let request = message(MessageType::Invocation, 2, 7, 9, &[5, 0, 0, 0]);
    assert_eq!(server.handle_received(Ok(request)), Ok(true));
    assert_eq!(
        BlockingTransport::receive(&mut a).unwrap(),
        message(MessageType::Reply, 2, 7, 9, &[10, 0, 0, 0])
    );
}

#[test]
fn handled_request_for_unknown_service_sends_nothing() {
    let (mut a, b) = BlockingMemoryTransport::new();
    let mut server: Server = BlockingSimpleServer::new(b, BasicCodecFactory::new());
    let request = message(MessageType::Invocation, 4, 7, 1, &[]);
    assert_eq!(
        server.handle_received(Ok(request)),
        Err(ErpcError::Request(RequestError::InvalidServiceId(4)))
    );
    assert_eq!(
        BlockingTransport::receive(&mut a),
        Err(ErpcError::Transport(erpc_rust::TransportError::Timeout))
    );
}

#[test]
fn run_on_a_closed_link_returns_at_once() {
    let (_a, mut b) = BlockingMemoryTransport::new();
    BlockingTransport::close(&mut b).unwrap();
    let mut server: Server = BlockingSimpleServer::new(b, BasicCodecFactory::new());
    assert_eq!(server.run_while(|| -> bool { panic!("asked while disconnected") }), Ok(()));
    assert!(!server.is_running());
}

#[test]
fn send_raw_request_oneway_returns_empty_payload() {
    let (a, mut b) = BlockingMemoryTransport::new();
    let mut client = BlockingClientManager::new(a, BasicCodecFactory::new());
    assert_eq!(client.send_raw_request(&[1, 2, 3], true), Ok(vec![]));
    assert_eq!(BlockingTransport::receive(&mut b).unwrap(), vec![1, 2, 3]);
}

#[test]
fn client_close_disconnects_only_its_end() {
    let (a, b) = BlockingMemoryTransport::new();
    let mut client = BlockingClientManager::new(a, BasicCodecFactory::new());
    assert_eq!(client.close(), Ok(()));
    assert!(!client.is_connected());
    assert!(BlockingTransport::is_connected(&b));
}
