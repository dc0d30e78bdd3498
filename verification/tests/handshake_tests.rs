use zellij_remote::framing::{encode_envelope, FramingError};
use zellij_remote::handshake::{
    build_server_hello, complete_handshake, handshake_step, negotiate_capabilities, HandshakeError,
    HandshakeStep,
};
use zellij_remote::session::RemoteSession;
use zellij_remote::protocol::{
    Capabilities, ClientHello, ControllerLease, ProtocolVersion, SessionState,
};

/// A session in which `client_id` is attached and in control.
fn session_with(client_id: u64) -> RemoteSession {
    let mut session = RemoteSession::with_session_id(80, 24, 1);
    session.add_client(client_id, 4);
    let _ = session.lease_manager.request_control_at(client_id, None, false, 0);
    session
}

fn make_client_hello() -> ClientHello {
    ClientHello {
        version: Some(ProtocolVersion { major: 1, minor: 0 }),
        capabilities: Some(Capabilities {
            supports_datagrams: true,
            max_datagram_bytes: 1200,
            supports_style_dictionary: true,
            supports_styled_underlines: false,
            supports_prediction: true,
            supports_images: false,
            supports_clipboard: false,
            supports_hyperlinks: false,
        }),
        client_name: "test-client".to_string(),
        bearer_token: vec![],
        resume_token: vec![],
    }
}

#[test]
fn test_build_server_hello_required_fields() {
    let client_hello = make_client_hello();
    let hello = build_server_hello(&session_with(123), &client_hello, "test-session", 123, 1_000, 0);

    assert!(hello.negotiated_version.is_some());
    assert!(hello.negotiated_capabilities.is_some());
    assert!(hello.lease.is_some());
    assert_eq!(hello.client_id, 123);
    assert_eq!(hello.session_name, "test-session");
    assert!(hello.snapshot_interval_ms > 0);
    assert!(hello.max_inflight_inputs > 0);
    assert!(hello.render_window > 0);
}

#[test]
fn test_build_server_hello_no_client_capabilities() {
    let client_hello = ClientHello {
        version: Some(ProtocolVersion { major: 1, minor: 0 }),
        capabilities: None,
        client_name: "minimal".to_string(),
        bearer_token: vec![],
        resume_token: vec![],
    };

    let hello = build_server_hello(&session_with(1), &client_hello, "test", 1, 1_000, 0);

    assert!(!hello.negotiated_capabilities.as_ref().unwrap().supports_datagrams);
}

#[test]
fn test_build_server_hello_negotiates_capabilities() {
    let client_hello_with_datagrams = ClientHello {
        version: Some(ProtocolVersion { major: 1, minor: 0 }),
        capabilities: Some(Capabilities {
            supports_datagrams: true,
            max_datagram_bytes: 1400,
            supports_style_dictionary: false,
            supports_styled_underlines: true,
            supports_prediction: false,
            supports_images: true,
            supports_clipboard: true,
            supports_hyperlinks: true,
        }),
        client_name: "test".to_string(),
        bearer_token: vec![],
        resume_token: vec![],
    };

    let hello = build_server_hello(&session_with(1), &client_hello_with_datagrams, "session", 1, 1_000, 0);

    let caps = hello.negotiated_capabilities.unwrap();
    assert!(
        caps.supports_datagrams,
        "should honor client datagram support"
    );
    assert!(
        !caps.supports_style_dictionary,
        "a bit that the client did not set is not raised"
    );
    assert!(!caps.supports_images, "server doesn't support images yet");
    assert!(
        !caps.supports_clipboard,
        "server doesn't support clipboard yet"
    );
}

#[test]
fn test_server_hello_names_running_session_and_version() {
    let client_hello = make_client_hello();
    let hello = build_server_hello(&session_with(99), &client_hello, "my-session", 99, 1_000, 0);
    assert_eq!(hello.session_state, SessionState::Running as i32);
    let version = hello.negotiated_version.unwrap();
    assert_eq!(version.major, 1);
    assert_eq!(version.minor, 0);
}

#[test]
fn test_server_hello_exact_fields() {
    let client_hello = make_client_hello();
    let hello = build_server_hello(&session_with(1), &client_hello, "S", 1, 1_000, 0);
    assert_eq!(
        hello.negotiated_capabilities,
        Some(Capabilities {
            supports_datagrams: true,
            max_datagram_bytes: 1200,
            supports_style_dictionary: true,
            supports_styled_underlines: false,
            supports_prediction: true,
            supports_images: false,
            supports_clipboard: false,
            supports_hyperlinks: false,
        })
    );
    assert_eq!(
        hello.lease,
        Some(ControllerLease {
            lease_id: 1,
            owner_client_id: 1,
            policy: 1,
            current_size: Some(zellij_remote::protocol::DisplaySize { cols: 80, rows: 24 }),
            remaining_ms: 30000,
            duration_ms: 30000,
        })
    );
    assert_eq!(hello.resume_token.len(), 72);
    assert_eq!(hello.snapshot_interval_ms, 5000);
    assert_eq!(hello.max_inflight_inputs, 256);
    assert_eq!(hello.render_window, 4);
}

#[test]
fn test_server_hello_carries_the_standing_lease_and_a_fresh_token() {
    let client_hello = make_client_hello();
    // client 3 controls the session; client 5 is told so and gets a token of its own
    let mut session = session_with(3);
    session.add_client(5, 4);
    let hello = build_server_hello(&session, &client_hello, "S", 5, 2_000, 400);
    let lease = hello.lease.unwrap();
    assert_eq!((lease.lease_id, lease.owner_client_id, lease.remaining_ms), (1, 3, 29_600));
    assert_eq!(hello.client_id, 5);
    assert_eq!(hello.resume_token, session.generate_resume_token_at(5, 2_000));
    let token = zellij_remote::resume_token::ResumeToken::decode_signed(
        &hello.resume_token,
        session.token_secret(),
    )
    .unwrap();
    assert_eq!((token.session_id, token.client_id, token.issued_at_ms), (1, 5, 2_000));
    // without a controller the hello carries no lease
    let idle = RemoteSession::with_session_id(80, 24, 1);
    assert!(build_server_hello(&idle, &client_hello, "S", 5, 2_000, 400).lease.is_none());
}

#[test]
fn test_negotiation_never_raises_a_bit() {
    let all = Capabilities {
        supports_datagrams: true,
        max_datagram_bytes: 9000,
        supports_style_dictionary: true,
        supports_styled_underlines: true,
        supports_prediction: true,
        supports_images: true,
        supports_clipboard: true,
        supports_hyperlinks: true,
    };
    assert_eq!(
        negotiate_capabilities(&Some(all)),
        Capabilities {
            supports_datagrams: true,
            max_datagram_bytes: 1200,
            supports_style_dictionary: true,
            supports_styled_underlines: false,
            supports_prediction: true,
            supports_images: false,
            supports_clipboard: false,
            supports_hyperlinks: false,
        }
    );
    let none = Capabilities {
        supports_datagrams: false,
        max_datagram_bytes: 0,
        supports_style_dictionary: false,
        supports_styled_underlines: false,
        supports_prediction: false,
        supports_images: false,
        supports_clipboard: false,
        supports_hyperlinks: false,
    };
    let quiet = Capabilities { max_datagram_bytes: 1200, ..none };
    assert_eq!(negotiate_capabilities(&Some(none)), quiet);
    assert_eq!(negotiate_capabilities(&None), quiet);
    let one = Capabilities { supports_prediction: true, ..none };
    assert_eq!(negotiate_capabilities(&Some(one)), Capabilities { supports_prediction: true, ..quiet });
}

#[test]
fn test_negotiate_clamps_and_keeps_the_server_datagram_size() {
    let mut caps = make_client_hello().capabilities.unwrap();
    caps.supports_datagrams = false;
    caps.supports_images = true;
    caps.max_datagram_bytes = 9000;
    let negotiated = negotiate_capabilities(&Some(caps));
    assert!(!negotiated.supports_datagrams);
    assert!(!negotiated.supports_images);
    assert_eq!(negotiated.max_datagram_bytes, 1200);
}

#[test]
fn test_handshake_connection_closed() {
    match handshake_step(&[], true) {
        HandshakeStep::Failed(e) => assert_eq!(e, HandshakeError::ConnectionClosed),
        _ => panic!("expected a failure"),
    }
    assert!(matches!(handshake_step(&[], false), HandshakeStep::NeedMore));
}

#[test]
fn test_handshake_partial_message() {
    let encoded = encode_envelope(&[9u8; 40]);
    let mid = encoded.len() / 2;
    assert!(matches!(handshake_step(&encoded[..mid], false), HandshakeStep::NeedMore));
    match handshake_step(&encoded, false) {
        HandshakeStep::FirstFrame(frame) => {
            assert_eq!(frame.payload, vec![9u8; 40]);
            assert_eq!(frame.consumed, encoded.len());
        },
        _ => panic!("expected the first frame"),
    }
}

#[test]
fn test_handshake_bad_header() {
    match handshake_step(&[0xFF; 11], false) {
        HandshakeStep::Failed(e) => {
            assert_eq!(e, HandshakeError::BadFrame(FramingError::InvalidVarint))
        },
        _ => panic!("expected a failure"),
    }
}

#[test]
fn test_handshake_wrong_first_message() {
    let result = complete_handshake(&session_with(1), None, "test", 1, 1_000, 0);
    assert_eq!(result.unwrap_err(), HandshakeError::WrongFirstMessage);
}

#[test]
fn test_handshake_success() {
    let client_hello = make_client_hello();
    let result = complete_handshake(&session_with(42), Some(client_hello.clone()), "test-session", 42, 1_000, 0).unwrap();
    assert_eq!(result.client_hello.client_name, "test-client");
    assert_eq!(result.client_hello, client_hello);
    assert_eq!(result.client_id, 42);
    assert_eq!(result.server_hello.client_id, 42);
    assert_eq!(result.server_hello.session_name, "test-session");
    assert!(result.server_hello.negotiated_capabilities.as_ref().unwrap().supports_datagrams);
}

#[test]
fn test_handshake_datagrams_disabled() {
    let mut client_hello = make_client_hello();
    client_hello.capabilities.as_mut().unwrap().supports_datagrams = false;
    let result = complete_handshake(&session_with(1), Some(client_hello), "test", 1, 1_000, 0).unwrap();
    assert!(!result.server_hello.negotiated_capabilities.as_ref().unwrap().supports_datagrams);
}
