use multistream_select::dialer::{Dialer, DialerPhase};
use multistream_select::errors::MultistreamSelectError;
use multistream_select::listener::{Listener, ListenerPhase};
use multistream_select::message::{Request, Response};

/// Drive both roles through the header exchange, leaving the listener
/// established and the dialer ready to propose.
fn handshaken_pair() -> (Listener, Dialer) {
    let mut dialer = Dialer::new();
    let header = dialer.header_frame();
    dialer.on_header_sent();

    let mut listener = Listener::new();
    let echo = listener
        .on_first_frame(Some(&header))
        .expect("the exact header must be accepted");
    listener.on_echo_sent();

    dialer
        .on_echo_frame(Some(&echo))
        .expect("the exact echo must be accepted");

    assert_eq!(listener.phase, ListenerPhase::Established);
    assert_eq!(dialer.phase, DialerPhase::Ready);
    (listener, dialer)
}

#[test]
fn wrong_proto_name() {
    let (listener, mut dialer) = handshaken_pair();

    let _proposal = dialer.propose(b"/echo/1.0.0".to_vec());
    dialer.on_proposal_sent();

    // The acceptor answers with a name of its own instead of echoing the
    // proposal it was sent.
    let reply = listener.response_frame(&Response::Protocol {
        name: b"invalid-proto".to_vec(),
    });
    match dialer.on_response(&reply) {
        Err(MultistreamSelectError::InvalidProtocolName) => (),
        _ => panic!(),
    }
    assert_eq!(dialer.phase, DialerPhase::Failed);
}

#[test]
fn happy_path() {
    let (mut listener, mut dialer) = handshaken_pair();

    let proposal = dialer.propose(b"/echo/1.0.0".to_vec());
    dialer.on_proposal_sent();

    let request = listener
        .next_request(Some(&proposal))
        .expect("a proposal must decode")
        .expect("a proposal is not end-of-stream");
    let name = match request {
        Request::Protocol { name } => name,
        Request::ListProtocols => panic!("a proposal was sent, not a listing request"),
    };
    assert_eq!(name, b"/echo/1.0.0".to_vec());

    let reply = listener.response_frame(&Response::Protocol { name });
    match dialer.on_response(&reply) {
        Ok(Response::Protocol { name }) => assert_eq!(name, b"/echo/1.0.0".to_vec()),
        _ => panic!("the echoed proposal must be accepted"),
    }
    assert_eq!(dialer.phase, DialerPhase::Done);
    assert_eq!(dialer.agreed_protocol(), &b"/echo/1.0.0".to_vec());
    assert_eq!(listener.phase, ListenerPhase::Established);
}

#[test]
fn listener_rejects_wrong_first_frame() {
    let mut listener = Listener::new();
    match listener.on_first_frame(Some(&b"/multistream/2.0.0\n".to_vec())) {
        Err(MultistreamSelectError::FailedHandshake) => (),
        _ => panic!(),
    }
    assert_eq!(listener.phase, ListenerPhase::Failed);
}

#[test]
fn listener_rejects_end_of_stream_before_header() {
    let mut listener = Listener::new();
    match listener.on_first_frame(None) {
        Err(MultistreamSelectError::FailedHandshake) => (),
        _ => panic!(),
    }
    assert_eq!(listener.phase, ListenerPhase::Failed);
}

#[test]
fn dialer_rejects_wrong_echo() {
    let mut dialer = Dialer::new();
    let _header = dialer.header_frame();
    dialer.on_header_sent();
    match dialer.on_echo_frame(Some(&b"ls\n".to_vec())) {
        Err(MultistreamSelectError::FailedHandshake) => (),
        _ => panic!(),
    }
    assert_eq!(dialer.phase, DialerPhase::Failed);
}

#[test]
fn clean_end_of_stream() {
    let (mut listener, _dialer) = handshaken_pair();
    assert!(matches!(listener.next_request(None), Ok(None)));
    assert_eq!(listener.phase, ListenerPhase::Ended);
    assert!(matches!(listener.next_request(None), Ok(None)));
    assert!(matches!(listener.next_request(None), Ok(None)));
    assert_eq!(listener.phase, ListenerPhase::Ended);
}

#[test]
fn list_protocols_reaches_established_listener() {
    let (mut listener, _dialer) = handshaken_pair();
    match listener.next_request(Some(&b"ls\n".to_vec())) {
        Ok(Some(Request::ListProtocols)) => (),
        _ => panic!("the ls literal asks for the protocol list"),
    }
    assert_eq!(listener.phase, ListenerPhase::Established);
}

#[test]
fn decode_failure_ends_the_producer() {
    let (mut listener, _dialer) = handshaken_pair();
    assert!(matches!(
        listener.next_request(Some(&b"bogus".to_vec())),
        Err(MultistreamSelectError::UnknownMessage)
    ));
    assert_eq!(listener.phase, ListenerPhase::Failed);
    // Even a well-formed later frame yields no request any more.
    assert!(matches!(
        listener.next_request(Some(&b"ls\n".to_vec())),
        Err(MultistreamSelectError::UnknownMessage)
    ));
    assert_eq!(listener.phase, ListenerPhase::Failed);
}

#[test]
fn not_available_then_second_candidate() {
    let (listener, mut dialer) = handshaken_pair();

    let _first = dialer.propose(b"/chat/2.0.0".to_vec());
    dialer.on_proposal_sent();
    let rejection = listener.response_frame(&Response::NotAvailable);
    match dialer.on_response(&rejection) {
        Ok(Response::NotAvailable) => (),
        _ => panic!("the rejection must be reported, not treated as fatal"),
    }
    assert_eq!(dialer.phase, DialerPhase::Ready);

    let _second = dialer.propose(b"/echo/1.0.0".to_vec());
    dialer.on_proposal_sent();
    let acceptance = listener.response_frame(&Response::Protocol {
        name: b"/echo/1.0.0".to_vec(),
    });
    assert!(dialer.on_response(&acceptance).is_ok());
    assert_eq!(dialer.phase, DialerPhase::Done);
    assert_eq!(dialer.agreed_protocol(), &b"/echo/1.0.0".to_vec());
}

#[test]
fn garbage_response_after_proposal() {
    let (_listener, mut dialer) = handshaken_pair();
    let _proposal = dialer.propose(b"/echo/1.0.0".to_vec());
    dialer.on_proposal_sent();
    match dialer.on_response(&b"garbage".to_vec()) {
        Err(MultistreamSelectError::UnknownMessage) => (),
        _ => panic!(),
    }
    assert_eq!(dialer.phase, DialerPhase::Failed);
}

#[test]
fn list_shaped_response_after_proposal_is_unknown() {
    let (_listener, mut dialer) = handshaken_pair();
    let _proposal = dialer.propose(b"/echo/1.0.0".to_vec());
    dialer.on_proposal_sent();
    // A multi-line frame carries no single response, so it is a
    // desynchronization, not a name mismatch.
    match dialer.on_response(&b"/echo/1.0.0\n/chat/2.0.0\n".to_vec()) {
        Err(MultistreamSelectError::UnknownMessage) => (),
        _ => panic!(),
    }
    assert_eq!(dialer.phase, DialerPhase::Failed);
}
