use erpc_rust::transport::rusb::{
    chunk_end, map_receive_error, map_send_error, remaining_timeout, round_in_request_len,
    select_interface_and_endpoints,
    Direction, EndpointAddress, InterfaceCandidate, ReadStep, SelectionError, TransferType,
    UsbReadBuffer,
};
use erpc_rust::{ErpcError, TransportError};

fn candidate(number: u8, class_code: u8, endpoints: Vec<EndpointAddress>) -> InterfaceCandidate {
    InterfaceCandidate { interface_number: number, alternate_setting: 1, class_code, endpoints }
}

#[test]
fn skips_non_vendor_interfaces() {
    let interfaces = vec![
        candidate(0, 0x03, vec![EndpointAddress::bulk_in(0x81), EndpointAddress::bulk_out(0x01)]),
        candidate(4, 0xff, vec![
            EndpointAddress { address: 0x85, direction: Direction::In, transfer_type: TransferType::Interrupt },
            EndpointAddress::bulk_out(0x06),
            EndpointAddress::bulk_in(0x87),
            EndpointAddress::bulk_in(0x89),
        ]),
    ];
    let selected = select_interface_and_endpoints(&interfaces).unwrap();
    assert_eq!(selected.interface_number, 4);
    assert_eq!(selected.alternate_setting, 1);
    assert_eq!(selected.endpoint_in, 0x87);
    assert_eq!(selected.endpoint_out, 0x06);
}

#[test]
fn reports_missing_vendor_interface() {
    let interfaces = vec![candidate(0, 0x03, vec![EndpointAddress::bulk_in(0x81)])];
    assert_eq!(
        select_interface_and_endpoints(&interfaces),
        Err(SelectionError::VendorInterfaceNotFound)
    );
    assert_eq!(select_interface_and_endpoints(&[]), Err(SelectionError::VendorInterfaceNotFound));
    assert_eq!(SelectionError::VendorInterfaceNotFound.message(), "Vendor interface not found");
    assert_eq!(
        SelectionError::MissingBulkPair.message(),
        "Missing bulk IN/OUT endpoints for vendor interface"
    );
}

#[test]
fn request_lengths_are_whole_packets() {
    assert_eq!(round_in_request_len(64, 1), 512);
    assert_eq!(round_in_request_len(64, 513), 576);
    assert_eq!(round_in_request_len(0, 3), 512);
    assert_eq!(round_in_request_len(1024, 10), 1024);
    assert_eq!(round_in_request_len(100, 512), 600);
}

#[test]
fn read_buffer_steps() {
    let mut buffer = UsbReadBuffer::new(64);
    assert!(buffer.needs_more(4));
    assert_eq!(buffer.request_len(4), 512);
    assert_eq!(buffer.absorb(vec![1, 2], 512, true), ReadStep::Finished);
    assert_eq!(buffer.absorb(vec![0; 512], 512, true), ReadStep::Continue);
    assert_eq!(buffer.len(), 514);
    assert_eq!(buffer.take(3), vec![1, 2, 0]);
    assert_eq!(buffer.len(), 511);
    buffer.clear();
    assert_eq!(buffer.absorb(Vec::new(), 512, false), ReadStep::Failed);
    assert_eq!(buffer.absorb(vec![5], 512, false), ReadStep::Finished);
    assert_eq!(buffer.take(10), vec![5]);
    assert_eq!(buffer.len(), 0);
}

#[test]
fn transfer_errors_carry_their_text() {
    assert_eq!(
        map_send_error("stall".to_string()),
        ErpcError::Transport(TransportError::SendFailed("stall".to_string()))
    );
    assert_eq!(
        map_receive_error("cancelled".to_string()),
        ErpcError::Transport(TransportError::ReceiveFailed("cancelled".to_string()))
    );
}

#[test]
fn remaining_timeout_counts_down_to_a_timeout() {
    assert_eq!(remaining_timeout(600, 150), Ok(450));
    assert_eq!(
        remaining_timeout(600, 600),
        Err(ErpcError::Transport(TransportError::Timeout))
    );
    assert_eq!(
        remaining_timeout(600, 900),
        Err(ErpcError::Transport(TransportError::Timeout))
    );
}

#[test]
fn out_chunks_hold_at_most_one_chunk_size() {
    assert_eq!(chunk_end(0, 1300), 512);
    assert_eq!(chunk_end(512, 1300), 1024);
    assert_eq!(chunk_end(1024, 1300), 1300);
    assert_eq!(chunk_end(0, 512), 512);
}
