//! The handshake: what the server answers to a client's hello.

use vstd::prelude::*;
use vstd::string::*;
use crate::framing::{decode_envelope, spec_decode_frame, DecodeResult, EnvelopeFrame, FramingError};
use crate::protocol::{
    Capabilities, ClientHello, ControllerLease, ProtocolVersion, ServerHello, SessionState,
};
use crate::resume_token::{lemma_signed_roundtrip, spec_encode_signed, SIGNED_TOKEN_SIZE};
use crate::session::RemoteSession;

verus! {

pub const DEFAULT_SNAPSHOT_INTERVAL_MS: u32 = 5000;

pub const DEFAULT_MAX_INFLIGHT_INPUTS: u32 = 256;

#[derive(Debug)]
pub struct HandshakeResult {
    pub client_hello: ClientHello,
    pub server_hello: ServerHello,
    pub client_id: u64,
}

/// Why a handshake fails. A bad version and a failed authentication are
/// reported to the client as fatal errors; the others just end the
/// connection.
#[derive(Debug, Clone, Copy, PartialEq, Eq, Structural)]
pub enum HandshakeError {
    ConnectionClosed,
    WrongFirstMessage,
    VersionMismatch,
    AuthFailed,
    BadFrame(FramingError),
}

/// What the server makes of the bytes received so far.
#[derive(Debug)]
pub enum HandshakeStep {
    /// No whole frame yet: read on.
    NeedMore,
    /// The first frame. Its body is the client's first message.
    FirstFrame(EnvelopeFrame),
    Failed(HandshakeError),
}

/// What the server itself supports: datagrams, the style dictionary and
/// prediction; no styled underlines, images, clipboard or hyperlinks.
pub open spec fn server_capabilities() -> Capabilities {
    Capabilities {
        supports_datagrams: true,
        max_datagram_bytes: crate::DEFAULT_MAX_DATAGRAM_BYTES,
        supports_style_dictionary: true,
        supports_styled_underlines: false,
        supports_prediction: true,
        supports_images: false,
        supports_clipboard: false,
        supports_hyperlinks: false,
    }
}

/// The capabilities that the server settles on: every support bit is set
/// only where the client set it and the server supports it, so that the
/// client's bits are clamped down to the server's own and never raised. A
/// client that names no capabilities gets none. Datagrams are at most 1200
/// bytes.
pub open spec fn spec_negotiate(client: Option<Capabilities>) -> Capabilities {
    let server = server_capabilities();
    match client {
        Some(c) => Capabilities {
            supports_datagrams: c.supports_datagrams && server.supports_datagrams,
            max_datagram_bytes: server.max_datagram_bytes,
            supports_style_dictionary: c.supports_style_dictionary && server.supports_style_dictionary,
            supports_styled_underlines: c.supports_styled_underlines && server.supports_styled_underlines,
            supports_prediction: c.supports_prediction && server.supports_prediction,
            supports_images: c.supports_images && server.supports_images,
            supports_clipboard: c.supports_clipboard && server.supports_clipboard,
            supports_hyperlinks: c.supports_hyperlinks && server.supports_hyperlinks,
        },
        None => Capabilities {
            supports_datagrams: false,
            max_datagram_bytes: server.max_datagram_bytes,
            supports_style_dictionary: false,
            supports_styled_underlines: false,
            supports_prediction: false,
            supports_images: false,
            supports_clipboard: false,
            supports_hyperlinks: false,
        },
    }
}

/// `hello` is the server's answer to `client_hello`.
pub open spec fn hello_matches(
    hello: ServerHello,
    client_hello: ClientHello,
    client_id: u64,
    lease: Option<ControllerLease>,
    resume_token: Seq<u8>,
    session_name: Seq<char>,
) -> bool {
    &&& hello.negotiated_version == Some(
        ProtocolVersion { major: crate::ZRP_VERSION_MAJOR, minor: crate::ZRP_VERSION_MINOR },
    )
    &&& hello.negotiated_capabilities == Some(spec_negotiate(client_hello.capabilities))
    &&& hello.client_id == client_id
    &&& hello.session_name@ == session_name
    &&& hello.session_state == SessionState::Running.spec_code()
    &&& hello.lease == lease
    &&& hello.resume_token@ == resume_token
    &&& hello.snapshot_interval_ms == DEFAULT_SNAPSHOT_INTERVAL_MS
    &&& hello.max_inflight_inputs == DEFAULT_MAX_INFLIGHT_INPUTS
    &&& hello.render_window == crate::DEFAULT_RENDER_WINDOW
}

pub fn negotiate_capabilities(client: &Option<Capabilities>) -> (caps: Capabilities)
    ensures
        caps == spec_negotiate(*client),
{
    match client {
        Some(c) => Capabilities {
            supports_datagrams: c.supports_datagrams,
            max_datagram_bytes: crate::DEFAULT_MAX_DATAGRAM_BYTES,
            supports_style_dictionary: c.supports_style_dictionary,
            supports_styled_underlines: false,
            supports_prediction: c.supports_prediction,
            supports_images: false,
            supports_clipboard: false,
            supports_hyperlinks: false,
        },
        None => Capabilities {
            supports_datagrams: false,
            max_datagram_bytes: crate::DEFAULT_MAX_DATAGRAM_BYTES,
            supports_style_dictionary: false,
            supports_styled_underlines: false,
            supports_prediction: false,
            supports_images: false,
            supports_clipboard: false,
            supports_hyperlinks: false,
        },
    }
}

/// The server's hello to a client of the session: the negotiated version
/// and capabilities, the client's id, the session's name, the lease that
/// stands at `lease_now_ms` (which is the client's own where the client
/// controls the session), and a fresh resume token for the client, signed
/// with the session's secret and issued at `unix_now_ms`.
pub fn build_server_hello(
    session: &RemoteSession,
    client_hello: &ClientHello,
    session_name: &str,
    client_id: u64,
    unix_now_ms: u64,
    lease_now_ms: u64,
) -> (hello: ServerHello)
    ensures
        hello_matches(
            hello,
            *client_hello,
            client_id,
            session.lease_manager@.current_lease(lease_now_ms),
            spec_encode_signed(session.token_for(client_id, unix_now_ms), session.secret()),
            session_name@,
        ),
        hello.resume_token@.len() == SIGNED_TOKEN_SIZE,
        session.lease_manager@.controller_is(client_id) ==> hello.lease.is_some()
            && hello.lease.unwrap().owner_client_id == client_id,
{
    let lease = session.lease_manager.get_current_lease_at(lease_now_ms);
    let resume_token = session.generate_resume_token_at(client_id, unix_now_ms);
    proof {
        lemma_signed_roundtrip(session.token_for(client_id, unix_now_ms), session.secret());
    }
    ServerHello {
        negotiated_version: Some(
            ProtocolVersion { major: crate::ZRP_VERSION_MAJOR, minor: crate::ZRP_VERSION_MINOR },
        ),
        negotiated_capabilities: Some(negotiate_capabilities(&client_hello.capabilities)),
        client_id,
        session_name: String::from_str(session_name),
        session_state: SessionState::Running.code(),
        lease,
        resume_token,
        snapshot_interval_ms: DEFAULT_SNAPSHOT_INTERVAL_MS,
        max_inflight_inputs: DEFAULT_MAX_INFLIGHT_INPUTS,
        render_window: crate::DEFAULT_RENDER_WINDOW,
    }
}

/// What to do with the bytes received so far on a stream whose first frame
/// has not been seen: go on reading while the frame is incomplete, give up
/// if the stream ended first or the header is bad, and hand the frame out
/// once it is whole.
pub fn handshake_step(received: &[u8], closed: bool) -> (step: HandshakeStep)
    ensures
        match spec_decode_frame(received@) {
            Ok(DecodeResult::Complete((payload, consumed))) => step matches HandshakeStep::FirstFrame(f)
                && f.payload@ == payload && f.consumed == consumed,
            Ok(DecodeResult::Incomplete) => if closed {
                step matches HandshakeStep::Failed(HandshakeError::ConnectionClosed)
            } else {
                step is NeedMore
            },
            Err(e) => step matches HandshakeStep::Failed(HandshakeError::BadFrame(err)) && err == e,
        },
{
    match decode_envelope(received) {
        Ok(DecodeResult::Complete(frame)) => HandshakeStep::FirstFrame(frame),
        Ok(DecodeResult::Incomplete) => {
            if closed {
                HandshakeStep::Failed(HandshakeError::ConnectionClosed)
            } else {
                HandshakeStep::NeedMore
            }
        },
        Err(e) => HandshakeStep::Failed(HandshakeError::BadFrame(e)),
    }
}

/// The end of the handshake for a client that the session knows as
/// `client_id`. `first` is the client's first message if that was a hello,
/// and nothing if it was any other message, which ends the handshake in an
/// error. The hello that answers is the one that `build_server_hello` gives.
pub fn complete_handshake(
    session: &RemoteSession,
    first: Option<ClientHello>,
    session_name: &str,
    client_id: u64,
    unix_now_ms: u64,
    lease_now_ms: u64,
) -> (r: Result<HandshakeResult, HandshakeError>)
    ensures
        first.is_none() ==> r == Err::<HandshakeResult, HandshakeError>(HandshakeError::WrongFirstMessage),
        first matches Some(client_hello) ==> r matches Ok(done) && done.client_id == client_id
            && done.client_hello == client_hello && hello_matches(
            done.server_hello,
            client_hello,
            client_id,
            session.lease_manager@.current_lease(lease_now_ms),
            spec_encode_signed(session.token_for(client_id, unix_now_ms), session.secret()),
            session_name@,
        ),
{
    match first {
        None => Err(HandshakeError::WrongFirstMessage),
        Some(client_hello) => {
            let server_hello = build_server_hello(
                session,
                &client_hello,
                session_name,
                client_id,
                unix_now_ms,
                lease_now_ms,
            );
            Ok(HandshakeResult { client_hello, server_hello, client_id })
        },
    }
}

} // verus!
