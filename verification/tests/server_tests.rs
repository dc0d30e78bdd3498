use zellij_remote::framing::FramingError;
use zellij_remote::protocol::protocol_error::Code;
use zellij_remote::server::{auth_warning, error_reply, AuthWarning};
use zellij_remote::frame::{Cell, Cursor, CursorShape, FrameData};
use zellij_remote::handshake::HandshakeError;
use zellij_remote::instruction::{active_client_after, is_shutdown, RemoteInstruction};
use zellij_remote::manager::Size;
use zellij_remote::protocol::{
    Capabilities, ClientHello, DisplaySize, InputEvent, ProtocolVersion, RequestControl,
};
use zellij_remote::server::{
    accept_client, authenticate, collect_updates, delta_dropped, ingest_frame, on_input,
    on_request_control, snapshot_forced, version_accepted, ControlResponse, InputOutcome, TestKnobs,
};
use zellij_remote::session::{InputError, RemoteSession, RenderUpdate};

fn hello(bearer: &[u8]) -> ClientHello {
    ClientHello {
        version: Some(ProtocolVersion { major: 1, minor: 0 }),
        capabilities: Some(Capabilities {
            supports_datagrams: false,
            max_datagram_bytes: 1200,
            supports_style_dictionary: true,
            supports_styled_underlines: false,
            supports_prediction: true,
            supports_images: false,
            supports_clipboard: false,
            supports_hyperlinks: false,
        }),
        client_name: "t".to_string(),
        bearer_token: bearer.to_vec(),
        resume_token: vec![],
    }
}

#[test]
fn test_bearer_token_has_to_match() {
    assert!(authenticate(&None, &vec![]));
    assert!(authenticate(&None, &vec![1, 2]));
    assert!(authenticate(&Some(vec![1, 2]), &vec![1, 2]));
    assert!(!authenticate(&Some(vec![1, 2]), &vec![1, 3]));
    assert!(!authenticate(&Some(vec![1, 2]), &vec![1, 2, 3]));
    assert!(!authenticate(&Some(vec![1, 2]), &vec![]));

    let mut session = RemoteSession::with_session_id(4, 2, 1);
    let refused = accept_client(&mut session, &hello(b"no"), 1, "S", &Some(b"yes".to_vec()), 0, 0);
    assert_eq!(refused.unwrap_err(), HandshakeError::AuthFailed);
    assert_eq!(session.client_count(), 0);
    assert!(session.lease_manager.get_current_lease_at(0).is_none());
    let accepted = accept_client(&mut session, &hello(b"yes"), 1, "S", &Some(b"yes".to_vec()), 0, 0);
    assert!(accepted.is_ok());
}

#[test]
fn test_other_major_version_is_refused() {
    assert!(version_accepted(&None));
    assert!(version_accepted(&Some(ProtocolVersion { major: 1, minor: 7 })));
    assert!(!version_accepted(&Some(ProtocolVersion { major: 2, minor: 0 })));
    assert!(!version_accepted(&Some(ProtocolVersion { major: 0, minor: 0 })));

    let mut session = RemoteSession::with_session_id(4, 2, 1);
    let mut h = hello(b"");
    h.version = Some(ProtocolVersion { major: 2, minor: 0 });
    let refused = accept_client(&mut session, &h, 1, "S", &Some(b"t".to_vec()), 0, 0);
    assert_eq!(refused.unwrap_err(), HandshakeError::VersionMismatch);
}

#[test]
fn test_second_client_is_told_the_standing_lease() {
    let mut session = RemoteSession::with_session_id(4, 2, 1);
    session.lease_manager =
        zellij_remote::lease::LeaseManager::new(zellij_remote::protocol::ControllerPolicy::ExplicitOnly, 30_000);
    let first = accept_client(&mut session, &hello(b""), 1, "S", &None, 0, 100).unwrap();
    assert_eq!(first.server_hello.lease.unwrap().owner_client_id, 1);
    let second = accept_client(&mut session, &hello(b""), 2, "S", &None, 0, 1100).unwrap();
    let lease = second.server_hello.lease.unwrap();
    assert_eq!(lease.owner_client_id, 1);
    assert_eq!(lease.remaining_ms, 29_000);
    assert!(session.lease_manager.is_controller(1));
}

#[test]
fn test_input_from_a_viewer_is_denied() {
    let mut session = RemoteSession::with_session_id(4, 2, 1);
    session.add_client(1, 4);
    session.add_client(2, 4);
    let _ = session.lease_manager.request_control_at(1, None, false, 0);
    let input = InputEvent { input_seq: 1, client_time_ms: 5, payload: None };
    match on_input(&mut session, 2, &input) {
        InputOutcome::NotController(error) => {
            assert_eq!(error.code, zellij_remote::protocol::protocol_error::Code::LeaseDenied as i32);
            assert_eq!(error.message, "Not the controller");
            assert!(!error.fatal);
        },
        other => panic!("expected a denial, got {:?}", other),
    }
    match on_input(&mut session, 1, &input) {
        InputOutcome::Taken { ack, write } => {
            assert_eq!(ack.acked_seq, 1);
            assert!(write.is_none());
        },
        other => panic!("expected the input to be taken, got {:?}", other),
    }
    match on_input(&mut session, 1, &input) {
        InputOutcome::Dropped(e) => assert_eq!(e, InputError::Duplicate),
        other => panic!("expected a duplicate, got {:?}", other),
    }
    let gap = InputEvent { input_seq: 9, client_time_ms: 5, payload: None };
    match on_input(&mut session, 1, &gap) {
        InputOutcome::Dropped(e) => assert_eq!(e, InputError::OutOfOrder { expected: 2, received: 9 }),
        other => panic!("expected out of order, got {:?}", other),
    }
    // the controller without a receiver
    let _ = session.lease_manager.request_control_at(7, None, true, 0);
    match on_input(&mut session, 7, &input) {
        InputOutcome::Dropped(e) => assert_eq!(e, InputError::ClientNotFound),
        other => panic!("expected client not found, got {:?}", other),
    }
}

#[test]
fn test_request_control_answers() {
    let mut session = RemoteSession::with_session_id(4, 2, 1);
    session.lease_manager =
        zellij_remote::lease::LeaseManager::new(zellij_remote::protocol::ControllerPolicy::ExplicitOnly, 1000);
    let request = RequestControl {
        reason: "want to type".to_string(),
        desired_size: Some(DisplaySize { cols: 100, rows: 30 }),
        force: false,
    };
    match on_request_control(&mut session, 1, &request, 10) {
        ControlResponse::Grant(grant) => {
            let lease = grant.lease.unwrap();
            assert_eq!(lease.owner_client_id, 1);
            assert_eq!(lease.current_size, Some(DisplaySize { cols: 100, rows: 30 }));
            assert_eq!(lease.policy, 2);
            assert_eq!(lease.duration_ms, 1000);
        },
        other => panic!("expected a grant, got {:?}", other),
    }
    match on_request_control(&mut session, 2, &request, 260) {
        ControlResponse::Deny(deny) => {
            assert_eq!(deny.reason, "Lease held by client 1 (policy: ExplicitOnly)");
            assert_eq!(deny.lease.unwrap().remaining_ms, 750);
        },
        other => panic!("expected a denial, got {:?}", other),
    }
    let forced = RequestControl { reason: String::new(), desired_size: None, force: true };
    match on_request_control(&mut session, 2, &forced, 300) {
        ControlResponse::Grant(grant) => {
            let lease = grant.lease.unwrap();
            assert_eq!(lease.owner_client_id, 2);
            assert_eq!(lease.lease_id, 2);
            assert_eq!(lease.current_size, Some(DisplaySize { cols: 80, rows: 24 }));
        },
        other => panic!("expected a grant, got {:?}", other),
    }
    assert!(session.lease_manager.is_viewer(1));
}

#[test]
fn test_denial_names_large_ids_in_decimal() {
    let mut mgr = zellij_remote::lease::LeaseManager::new(
        zellij_remote::protocol::ControllerPolicy::Unspecified,
        1000,
    );
    let _ = mgr.request_control_at(18446744073709551615, None, false, 0);
    match mgr.request_control_at(10, None, false, 0) {
        zellij_remote::lease::LeaseResult::Denied { reason, .. } => {
            assert_eq!(reason, "Lease held by client 18446744073709551615 (policy: Unspecified)")
        },
        other => panic!("expected a denial, got {:?}", other),
    }
}

#[test]
fn test_knobs() {
    assert!(!snapshot_forced(None, 4));
    assert!(!snapshot_forced(Some(0), 4));
    assert!(snapshot_forced(Some(2), 4));
    assert!(!snapshot_forced(Some(3), 4));
    assert!(snapshot_forced(Some(3), 0));
    assert!(!delta_dropped(None, 6));
    assert!(!delta_dropped(Some(0), 6));
    assert!(delta_dropped(Some(3), 6));
    assert!(!delta_dropped(Some(4), 6));

    let quiet = TestKnobs {
        drop_delta_nth: None,
        delay_send_ms: None,
        force_snapshot_every: None,
        log_frame_stats: false,
    };
    assert!(!quiet.is_any_active());
    assert_eq!(quiet.describe_active(), "");
    let one = TestKnobs { delay_send_ms: Some(250), ..quiet };
    assert!(one.is_any_active());
    assert_eq!(one.describe_active(), "DELAY_SEND_MS=250");
    let all = TestKnobs {
        drop_delta_nth: Some(3),
        delay_send_ms: Some(0),
        force_snapshot_every: Some(10),
        log_frame_stats: true,
    };
    assert_eq!(
        all.describe_active(),
        "DROP_DELTA_NTH=3, DELAY_SEND_MS=0, FORCE_SNAPSHOT_EVERY=10, LOG_FRAME_STATS=1"
    );
    let stats = TestKnobs { log_frame_stats: true, ..quiet };
    assert_eq!(stats.describe_active(), "LOG_FRAME_STATS=1");
}

#[test]
fn test_ingest_frame_and_collect_updates() {
    let mut session = RemoteSession::with_session_id(4, 3, 1);
    session.add_client(1, 4);
    session.add_client(2, 4);

    let mut source = FrameData::new(4, 2);
    source.rows[1].set_cell(2, Cell { codepoint: 65, width: 1, style_id: 0 });
    source.cursor = Cursor { row: 1, col: 3, visible: true, blink: false, shape: CursorShape::Bar };
    ingest_frame(&mut session, &source);
    assert_eq!(session.frame_store.current_state_id(), 1);
    assert_eq!(session.frame_store.current_frame().rows.len(), 3);
    assert_eq!(session.frame_store.current_frame().rows[1].0.cells[2].codepoint, 65);
    assert_eq!(session.frame_store.current_frame().cursor, source.cursor);
    assert!(session.can_resume_from_state(1));

    let updates = collect_updates(&mut session, &vec![2, 9, 1], false);
    assert_eq!(updates.len(), 2);
    assert_eq!(updates[0].0, 2);
    assert_eq!(updates[1].0, 1);
    assert!(matches!(updates[0].1, RenderUpdate::Snapshot(_)));

    ingest_frame(&mut session, &source);
    let updates = collect_updates(&mut session, &vec![1, 2], false);
    assert!(updates.iter().all(|(_, u)| matches!(u, RenderUpdate::Delta(_))));
    ingest_frame(&mut session, &source);
    let updates = collect_updates(&mut session, &vec![1, 2], true);
    assert_eq!(updates.len(), 2);
    assert!(updates.iter().all(|(_, u)| matches!(u, RenderUpdate::Snapshot(_))));
}

#[test]
fn test_instructions() {
    let size = Size { rows: 24, cols: 80 };
    let connected = RemoteInstruction::ClientConnected { client_id: 3, size };
    assert_eq!(active_client_after(None, &connected), Some(3));
    assert_eq!(active_client_after(Some(1), &connected), Some(3));
    let gone = RemoteInstruction::ClientDisconnected { client_id: 3 };
    assert_eq!(active_client_after(Some(3), &gone), None);
    assert_eq!(active_client_after(Some(4), &gone), Some(4));
    assert_eq!(active_client_after(None, &gone), None);
    let resize = RemoteInstruction::ClientResize { client_id: 3, size };
    assert_eq!(active_client_after(Some(4), &resize), Some(4));
    assert!(is_shutdown(&RemoteInstruction::Shutdown));
    assert!(!is_shutdown(&resize));
}

#[test]
fn test_error_replies() {
    let reply = error_reply(HandshakeError::AuthFailed).unwrap();
    assert_eq!((reply.code, reply.fatal), (Code::Unauthorized as i32, true));
    let reply = error_reply(HandshakeError::VersionMismatch).unwrap();
    assert_eq!((reply.code, reply.fatal), (Code::BadVersion as i32, true));
    let reply = error_reply(HandshakeError::BadFrame(FramingError::InvalidVarint)).unwrap();
    assert_eq!((reply.code, reply.fatal), (Code::BadMessage as i32, true));
    let reply = error_reply(HandshakeError::BadFrame(FramingError::FrameTooLarge { len: 1 << 30 })).unwrap();
    assert_eq!((reply.code, reply.fatal), (Code::BadMessage as i32, true));
    assert!(error_reply(HandshakeError::ConnectionClosed).is_none());
    assert!(error_reply(HandshakeError::WrongFirstMessage).is_none());
}

#[test]
fn test_auth_warnings() {
    assert_eq!(auth_warning(true, true), AuthWarning::Quiet);
    assert_eq!(auth_warning(true, false), AuthWarning::Quiet);
    assert_eq!(auth_warning(false, true), AuthWarning::Unauthenticated);
    assert_eq!(auth_warning(false, false), AuthWarning::UnauthenticatedAndExposed);
}
