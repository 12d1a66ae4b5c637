use foxglove::framing::{
    encode_asset_response, encode_message_data, encode_service_response, encode_time,
    parse_client_frame, ClientFrame,
};

#[test]
fn test_encode_message_data() {
    let frame = encode_message_data(1, 0x0102, &vec![0xAB]);
    assert_eq!(
        frame,
        vec![0x01, 0x01, 0x00, 0x00, 0x00, 0x02, 0x01, 0x00, 0x00, 0x00, 0x00, 0x00, 0x00, 0xAB]
    );
}

#[test]
fn test_encode_time() {
    assert_eq!(
        encode_time(1),
        vec![0x02, 0x01, 0x00, 0x00, 0x00, 0x00, 0x00, 0x00, 0x00]
    );
}

#[test]
fn test_encode_service_response() {
    let frame = encode_service_response(3, 7, &b"json".to_vec(), &vec![9]);
    assert_eq!(
        frame,
        vec![
            0x03, // opcode
            0x03, 0x00, 0x00, 0x00, // service id
            0x07, 0x00, 0x00, 0x00, // call id
            0x04, 0x00, 0x00, 0x00, // encoding length
            b'j', b's', b'o', b'n', // encoding
            0x09, // payload
        ]
    );
}

#[test]
fn test_encode_asset_response() {
    let ok = encode_asset_response(5, 0, &vec![1, 2]);
    assert_eq!(ok, vec![0x04, 0x05, 0x00, 0x00, 0x00, 0x00, 0x01, 0x02]);
    let err = encode_asset_response(5, 1, &b"no".to_vec());
    assert_eq!(err, vec![0x04, 0x05, 0x00, 0x00, 0x00, 0x01, b'n', b'o']);
}

#[test]
fn test_parse_client_message_data() {
    let frame = vec![0x01, 0x2A, 0x00, 0x00, 0x00, 0xDE, 0xAD];
    match parse_client_frame(&frame) {
        Some(ClientFrame::MessageData {
            client_channel_id,
            payload,
        }) => {
            assert_eq!(client_channel_id, 42);
            assert_eq!(payload, vec![0xDE, 0xAD]);
        }
        other => panic!("unexpected parse: {:?}", other),
    }
}

#[test]
fn test_parse_client_service_request() {
    let mut frame = vec![0x02];
    frame.extend_from_slice(&[0x01, 0x00, 0x00, 0x00]); // service id 1
    frame.extend_from_slice(&[0x07, 0x00, 0x00, 0x00]); // call id 7
    frame.extend_from_slice(&[0x04, 0x00, 0x00, 0x00]); // encoding length
    frame.extend_from_slice(b"json");
    frame.extend_from_slice(&[0x01, 0x02, 0x03]);
    match parse_client_frame(&frame) {
        Some(ClientFrame::ServiceRequest {
            service_id,
            call_id,
            encoding,
            payload,
        }) => {
            assert_eq!(service_id, 1);
            assert_eq!(call_id, 7);
            assert_eq!(encoding, b"json".to_vec());
            assert_eq!(payload, vec![1, 2, 3]);
        }
        other => panic!("unexpected parse: {:?}", other),
    }
}

#[test]
fn test_parse_rejects_malformed() {
    // Too short for any frame.
    assert!(parse_client_frame(&vec![0x01]).is_none());
    // Unknown opcode.
    assert!(parse_client_frame(&vec![0x09, 0, 0, 0, 0, 0]).is_none());
    // Service request whose declared encoding length overruns the frame.
    let mut frame = vec![0x02];
    frame.extend_from_slice(&[0, 0, 0, 0]);
    frame.extend_from_slice(&[0, 0, 0, 0]);
    frame.extend_from_slice(&[0xFF, 0x00, 0x00, 0x00]);
    assert!(parse_client_frame(&frame).is_none());
}
