use erpc_rust::{
    codec::{BasicCodec, BasicCodecFactory, MessageInfo, MessageType},
    server::blocking::{
        BlockingBaseService, BlockingFunctionHandler, BlockingMethodHandler, BlockingServer,
        BlockingServerBuilder,
    },
    transport::blocking_memory::BlockingMemoryTransport,
    BlockingClientManager,
};
use std::cell::Cell;

fn echo_service() -> BlockingBaseService<impl BlockingMethodHandler> {
    let mut service = BlockingBaseService::new(1);
    service.add_method(
        1,
        BlockingFunctionHandler::new(|sequence, codec: &mut BasicCodec| {
            let input = codec.read_string()?;
            let reply_info = MessageInfo::new(MessageType::Reply, 1, 1, sequence);
            codec.start_write_message(&reply_info)?;
            codec.write_string(&format!("Echo: {}", input))?;
            Ok(())
        }),
    );
    service
}

/// Encodes a two-way call of method 1 of service 1 carrying `text`.
fn echo_request(sequence: u32, text: &str) -> Vec<u8> {
    let mut args = BasicCodec::new();
    args.write_string(text).unwrap();
    let mut request = BasicCodec::new();
    request
        .start_write_message(&MessageInfo::new(MessageType::Invocation, 1, 1, sequence))
        .unwrap();
    request.write_bytes(args.as_bytes()).unwrap();
    request.as_bytes().to_vec()
}

// The client side and the server side run in turn on one thread: the request
// is queued on the link before the server polls.
#[test]
fn blocking_server_poll_processes_one_request() {
    let (client_transport, server_transport) = BlockingMemoryTransport::new();
    let codec_factory = BasicCodecFactory::new();
    let mut client = BlockingClientManager::new(client_transport, codec_factory.clone());
    let mut server = BlockingServerBuilder::new()
        .transport(server_transport)
        .codec_factory(codec_factory)
        .service(echo_service())
        .build()
        .unwrap();

    client.send_request(&echo_request(1, "poll")).unwrap();
    assert!(server.poll().unwrap());

    let reply = client.receive_response().unwrap();
    let response_data = client.check_reply(reply, 1).unwrap();
    let mut response_codec = BasicCodec::from_data(response_data);
    assert_eq!(response_codec.read_string().unwrap(), "Echo: poll");
}

// Both requests are queued first; the server then runs until its predicate
// turns false, and the client collects both replies.
#[test]
fn blocking_server_run_processes_requests_until_stopped() {
    let (client_transport, server_transport) = BlockingMemoryTransport::new();
    let codec_factory = BasicCodecFactory::new();

    let mut server = BlockingServerBuilder::new()
        .transport(server_transport)
        .codec_factory(codec_factory.clone())
        .service(echo_service())
        .build()
        .unwrap();

    let mut client = BlockingClientManager::new(client_transport, codec_factory);
    let messages = ["run-one", "run-two"];
    for (i, message) in messages.iter().enumerate() {
        client.send_request(&echo_request(i as u32 + 1, message)).unwrap();
    }

    let rounds = Cell::new(0u32);
    server
        .run_while(|| {
            rounds.set(rounds.get() + 1);
            rounds.get() <= 3
        })
        .unwrap();
    assert!(!server.is_running());

    for (i, message) in messages.iter().enumerate() {
        let reply = client.receive_response().unwrap();
        let response_data = client.check_reply(reply, i as u32 + 1).unwrap();
        let mut response_codec = BasicCodec::from_data(response_data);
        assert_eq!(
            response_codec.read_string().unwrap(),
            format!("Echo: {}", message)
        );
    }

    client.close().unwrap();
    assert!(!client.is_connected());
}
