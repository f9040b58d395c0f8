use multistream_select::errors::MultistreamSelectError;
use multistream_select::message::{
    decode_protocols_list, decode_request, decode_response, encode_request, encode_response,
    header_frame, Request, Response,
};

#[test]
fn header_frame_exact_bytes() {
    assert_eq!(header_frame(), b"/multistream/1.0.0\n".to_vec());
}

#[test]
fn encode_propose_exact_bytes() {
    let frame = encode_request(&Request::Protocol { name: b"/echo/1.0.0".to_vec() });
    assert_eq!(frame, b"/echo/1.0.0\n".to_vec());
}

#[test]
fn encode_list_protocols_exact_bytes() {
    assert_eq!(encode_request(&Request::ListProtocols), b"ls\n".to_vec());
}

#[test]
fn encode_accept_exact_bytes() {
    let frame = encode_response(&Response::Protocol { name: b"/echo/1.0.0".to_vec() });
    assert_eq!(frame, b"/echo/1.0.0\n".to_vec());
}

#[test]
fn encode_not_available_exact_bytes() {
    assert_eq!(encode_response(&Response::NotAvailable), b"na\n".to_vec());
}

#[test]
fn encode_protocols_list_layout() {
    let frame = encode_response(&Response::ProtocolsList {
        names: vec![b"/echo/1.0.0".to_vec(), b"/chat/2.0.0".to_vec()],
    });
    assert_eq!(frame, b"/echo/1.0.0\n/chat/2.0.0\n".to_vec());
}

#[test]
fn encode_empty_protocols_list() {
    let frame = encode_response(&Response::ProtocolsList { names: vec![] });
    assert_eq!(frame, b"".to_vec());
}

#[test]
fn propose_round_trip() {
    let frame = encode_request(&Request::Protocol { name: b"/echo/1.0.0".to_vec() });
    match decode_request(&frame) {
        Ok(Request::Protocol { name }) => assert_eq!(name, b"/echo/1.0.0".to_vec()),
        _ => panic!("the proposed name must come back unchanged"),
    }
}

#[test]
fn list_protocols_round_trip() {
    let frame = encode_request(&Request::ListProtocols);
    assert!(matches!(decode_request(&frame), Ok(Request::ListProtocols)));
}

#[test]
fn ls_literal_decodes_as_list_protocols() {
    assert!(matches!(
        decode_request(&b"ls\n".to_vec()),
        Ok(Request::ListProtocols)
    ));
}

#[test]
fn decode_propose_strips_only_the_terminator() {
    match decode_request(&b"/echo/1.0.0\n".to_vec()) {
        Ok(Request::Protocol { name }) => assert_eq!(name, b"/echo/1.0.0".to_vec()),
        _ => panic!("a slash-led line is a proposal"),
    }
}

#[test]
fn malformed_frames_are_unknown_messages() {
    let frames: Vec<Vec<u8>> = vec![
        b"".to_vec(),
        b"\n".to_vec(),
        b"ls".to_vec(),
        b"/no-terminator".to_vec(),
        b"no-slash\n".to_vec(),
        b"na\n".to_vec(),
        b"/multistream/1.0.0".to_vec(),
    ];
    for frame in frames {
        assert!(matches!(
            decode_request(&frame),
            Err(MultistreamSelectError::UnknownMessage)
        ));
    }
}

#[test]
fn protocols_list_round_trip() {
    let names = vec![b"/echo/1.0.0".to_vec(), b"/chat/2.0.0".to_vec()];
    let frame = encode_response(&Response::ProtocolsList {
        names: names.clone(),
    });
    assert_eq!(decode_protocols_list(&frame).unwrap(), names);
}

#[test]
fn empty_listing_round_trip() {
    assert_eq!(
        decode_protocols_list(&b"".to_vec()).unwrap(),
        Vec::<Vec<u8>>::new()
    );
}

#[test]
fn listing_with_empty_line_is_unknown() {
    assert!(matches!(
        decode_protocols_list(&b"\n/echo/1.0.0\n".to_vec()),
        Err(MultistreamSelectError::UnknownMessage)
    ));
}

#[test]
fn listing_without_final_terminator_is_unknown() {
    assert!(matches!(
        decode_protocols_list(&b"/echo/1.0.0\n/chat/2.0.0".to_vec()),
        Err(MultistreamSelectError::UnknownMessage)
    ));
}

#[test]
fn decode_response_not_available() {
    assert!(matches!(
        decode_response(&b"na\n".to_vec()),
        Ok(Response::NotAvailable)
    ));
}

#[test]
fn decode_response_accept() {
    match decode_response(&b"/echo/1.0.0\n".to_vec()) {
        Ok(Response::Protocol { name }) => assert_eq!(name, b"/echo/1.0.0".to_vec()),
        _ => panic!("a terminated name is an acceptance"),
    }
}

#[test]
fn decode_response_keeps_unconventional_name() {
    match decode_response(&b"invalid-proto\n".to_vec()) {
        Ok(Response::Protocol { name }) => assert_eq!(name, b"invalid-proto".to_vec()),
        _ => panic!("a response name is kept verbatim"),
    }
}

#[test]
fn decode_response_rejects_embedded_terminator() {
    assert!(matches!(
        decode_response(&b"/echo/1.0.0\n/chat/2.0.0\n".to_vec()),
        Err(MultistreamSelectError::UnknownMessage)
    ));
}

#[test]
fn decode_response_rejects_empty_line() {
    assert!(matches!(
        decode_response(&b"\n".to_vec()),
        Err(MultistreamSelectError::UnknownMessage)
    ));
    assert!(matches!(
        decode_response(&b"".to_vec()),
        Err(MultistreamSelectError::UnknownMessage)
    ));
}
