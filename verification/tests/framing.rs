use erpc_rust::transport::blocking_framed::{
    check_frame_body, decode_frame_header, encode_frame_header, BlockingFramedTransport,
};
use erpc_rust::transport::blocking_memory::BlockingMemoryTransport;
use erpc_rust::transport::BlockingTransport;
use erpc_rust::{CodecError, ErpcError, TransportError};

#[test]
fn frame_header_bytes() {
    assert_eq!(encode_frame_header(b"hello"), vec![0xa5, 0xdd, 0x05, 0x00, 0xa0, 0x9b]);
    assert_eq!(encode_frame_header(b""), vec![0xc6, 0xf0, 0x00, 0x00, 0x4a, 0xef]);
}

#[test]
fn encoded_header_is_accepted() {
    let data = b"some payload";
    let header = encode_frame_header(data);
    let (length, crc_body) = decode_frame_header(header).unwrap();
    assert_eq!(length as usize, data.len());
    assert!(check_frame_body(data, crc_body).is_ok());
}

#[test]
fn corrupted_header_is_rejected() {
    let mut header = encode_frame_header(b"hello");
    header[2] ^= 1;
    assert_eq!(
        decode_frame_header(header),
        Err(ErpcError::Transport(TransportError::ReceiveFailed(
            "Invalid message (header) CRC".to_string()
        )))
    );
    assert_eq!(
        decode_frame_header(vec![1, 2, 3]),
        Err(ErpcError::Codec(CodecError::BufferUnderflow))
    );
}

#[test]
fn corrupted_body_is_rejected() {
    let header = encode_frame_header(b"hello");
    let (_, crc_body) = decode_frame_header(header).unwrap();
    assert_eq!(
        check_frame_body(b"hellp", crc_body),
        Err(ErpcError::Transport(TransportError::ReceiveFailed(
            "Invalid message (body) CRC".to_string()
        )))
    );
}

#[test]
fn message_sent_on_one_end_is_received_on_the_other() {
    let (mut a, mut b) = BlockingMemoryTransport::new();
    BlockingTransport::send(&mut a, b"first").unwrap();
    BlockingTransport::send(&mut a, b"second").unwrap();
    assert_eq!(BlockingTransport::receive(&mut b).unwrap(), b"first".to_vec());
    assert_eq!(BlockingTransport::receive(&mut b).unwrap(), b"second".to_vec());
    BlockingTransport::send(&mut b, b"back").unwrap();
    assert_eq!(BlockingTransport::receive(&mut a).unwrap(), b"back".to_vec());
}

#[test]
fn empty_message_travels() {
    let (mut a, mut b) = BlockingMemoryTransport::pair();
    BlockingTransport::send(&mut a, b"").unwrap();
    assert_eq!(BlockingTransport::receive(&mut b).unwrap(), Vec::<u8>::new());
}

#[test]
fn corrupted_frame_on_the_link_is_rejected() {
    let (mut a, mut b) = BlockingMemoryTransport::new();
    let mut header = encode_frame_header(b"abc");
    header[0] ^= 0xff;
    a.base_send(&header).unwrap();
    a.base_send(b"abc").unwrap();
    assert_eq!(
        BlockingTransport::receive(&mut b),
        Err(ErpcError::Transport(TransportError::ReceiveFailed(
            "Invalid message (header) CRC".to_string()
        )))
    );
}

#[test]
fn raw_receive_splits_chunks() {
    let (mut a, mut b) = BlockingMemoryTransport::new();
    a.base_send(&[1, 2, 3, 4, 5]).unwrap();
    assert_eq!(b.base_receive(2).unwrap(), vec![1, 2]);
    assert_eq!(b.base_receive(3).unwrap(), vec![3, 4, 5]);
}

#[test]
fn raw_receive_joins_chunks() {
    let (mut a, mut b) = BlockingMemoryTransport::new();
    a.base_send(&[1, 2]).unwrap();
    a.base_send(&[3]).unwrap();
    assert_eq!(b.base_receive(3).unwrap(), vec![1, 2, 3]);
}

#[test]
fn receive_times_out_when_nothing_arrives() {
    let (_a, mut b) = BlockingMemoryTransport::new();
    assert_eq!(
        BlockingTransport::receive(&mut b),
        Err(ErpcError::Transport(TransportError::Timeout))
    );
}

#[test]
fn closed_transport_refuses_work() {
    let (mut a, _b) = BlockingMemoryTransport::new();
    assert!(BlockingTransport::is_connected(&a));
    BlockingTransport::close(&mut a).unwrap();
    assert!(!BlockingTransport::is_connected(&a));
    assert_eq!(
        BlockingTransport::send(&mut a, b"x"),
        Err(ErpcError::Transport(TransportError::Closed))
    );
    assert_eq!(
        BlockingTransport::receive(&mut a),
        Err(ErpcError::Transport(TransportError::Closed))
    );
}

#[test]
fn timeout_can_be_changed() {
    let (_a, mut b) = BlockingMemoryTransport::new();
    BlockingTransport::set_timeout(&mut b, std::time::Duration::from_millis(1));
    assert_eq!(
        b.base_receive(1),
        Err(ErpcError::Transport(TransportError::Timeout))
    );
}

#[test]
fn zero_length_receive_is_empty_and_leaves_the_queue() {
    let (mut a, mut b) = BlockingMemoryTransport::new();
    BlockingFramedTransport::base_send(&mut a, &[7, 8, 9]).unwrap();
    assert_eq!(BlockingFramedTransport::base_receive(&mut b, 0), Ok(vec![]));
    assert_eq!(BlockingFramedTransport::base_receive(&mut b, 2), Ok(vec![7, 8]));
    assert_eq!(BlockingFramedTransport::base_receive(&mut b, 1), Ok(vec![9]));
}

#[test]
fn an_end_never_receives_its_own_sends() {
    let (mut a, mut b) = BlockingMemoryTransport::new();
    BlockingFramedTransport::base_send(&mut a, &[1, 2]).unwrap();
    assert_eq!(
        BlockingFramedTransport::base_receive(&mut a, 2),
        Err(ErpcError::Transport(TransportError::Timeout))
    );
    assert_eq!(BlockingFramedTransport::base_receive(&mut b, 2), Ok(vec![1, 2]));
}

#[test]
fn framed_errors_of_the_link_are_passed_on() {
    let (mut a, _b) = BlockingMemoryTransport::new();
    BlockingTransport::close(&mut a).unwrap();
    assert_eq!(
        BlockingTransport::receive(&mut a),
        Err(ErpcError::Transport(TransportError::Closed))
    );
    assert_eq!(
        BlockingTransport::send(&mut a, b"x"),
        Err(ErpcError::Transport(TransportError::Closed))
    );
}
