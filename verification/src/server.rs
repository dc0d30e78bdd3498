//! What the server decides. The loop that owns the connections performs
//! what is decided here: it reads and writes, and hands every event to one
//! of these functions together with the session.

use vstd::prelude::*;
use vstd::string::*;
use crate::client_state::ClientRenderState;
use crate::frame::FrameData;
use crate::handshake::{build_server_hello, hello_matches, HandshakeError};
use crate::input_translate::{action_matches, spec_translate, translate_input, WriteAction};
use crate::lease::{request_result_ok, requested_size, LeaseResult};
use crate::protocol::{
    ClientHello, DenyControl, DisplaySize, GrantControl, InputAck, InputEvent, ProtocolError,
    ProtocolVersion, RequestControl, ServerHello,
};
use crate::resume_token::{constant_time_eq, spec_encode_signed, ResumeResult};
use crate::session::{input_verdict, watermark_of, InputError, RemoteSession, RenderUpdate};
use crate::text::{decimal, push_decimal};

verus! {

broadcast use vstd::std_specs::hash::group_hash_axioms;

/// How many frames may wait in a client's send queue; one more is dropped.
pub const CLIENT_CHANNEL_SIZE: usize = 4;

/// The render window that a client gets at the handshake.
pub const HANDSHAKE_RENDER_WINDOW: u32 = 4;

/// Switches that tests set to make the server misbehave on purpose.
#[derive(Debug, Clone, Copy, PartialEq, Eq, Structural)]
pub struct TestKnobs {
    pub drop_delta_nth: Option<u32>,
    pub delay_send_ms: Option<u64>,
    pub force_snapshot_every: Option<u32>,
    pub log_frame_stats: bool,
}

impl TestKnobs {
    pub open spec fn spec_any_active(self) -> bool {
        self.drop_delta_nth.is_some() || self.delay_send_ms.is_some() || self.force_snapshot_every.is_some()
            || self.log_frame_stats
    }

    pub fn is_any_active(&self) -> (b: bool)
        ensures
            b == self.spec_any_active(),
    {
        self.drop_delta_nth.is_some() || self.delay_send_ms.is_some() || self.force_snapshot_every.is_some()
            || self.log_frame_stats
    }

    /// The switches that are set, each as `NAME=value`, joined by commas.
    pub open spec fn spec_describe(self) -> Seq<char> {
        let a = match self.drop_delta_nth {
            Some(n) => "DROP_DELTA_NTH="@ + decimal(n as nat),
            None => Seq::empty(),
        };
        let b = match self.delay_send_ms {
            Some(ms) => joined(a, "DELAY_SEND_MS="@ + decimal(ms as nat)),
            None => a,
        };
        let c = match self.force_snapshot_every {
            Some(n) => joined(b, "FORCE_SNAPSHOT_EVERY="@ + decimal(n as nat)),
            None => b,
        };
        if self.log_frame_stats {
            joined(c, "LOG_FRAME_STATS=1"@)
        } else {
            c
        }
    }

    /// The switches that are set, in words, for the log.
    pub fn describe_active(&self) -> (text: String)
        ensures
            text@ == self.spec_describe(),
    {
        let mut text = String::new();
        let mut any = false;
        match self.drop_delta_nth {
            Some(n) => {
                text.append("DROP_DELTA_NTH=");
                push_decimal(&mut text, n as u64);
                any = true;
            },
            None => {},
        }
        assert(text@ =~= (match self.drop_delta_nth {
            Some(n) => "DROP_DELTA_NTH="@ + decimal(n as nat),
            None => Seq::empty(),
        }));
        let ghost a = text@;
        assert(any == (a.len() > 0)) by {
            reveal_strlit("DROP_DELTA_NTH=");
        }
        match self.delay_send_ms {
            Some(ms) => {
                if any {
                    text.append(", ");
                }
                text.append("DELAY_SEND_MS=");
                push_decimal(&mut text, ms);
                any = true;
                assert(text@ =~= joined(a, "DELAY_SEND_MS="@ + decimal(ms as nat)));
            },
            None => {},
        }
        let ghost b = text@;
        assert(any == (b.len() > 0)) by {
            reveal_strlit("DELAY_SEND_MS=");
        }
        match self.force_snapshot_every {
            Some(n) => {
                if any {
                    text.append(", ");
                }
                text.append("FORCE_SNAPSHOT_EVERY=");
                push_decimal(&mut text, n as u64);
                any = true;
                assert(text@ =~= joined(b, "FORCE_SNAPSHOT_EVERY="@ + decimal(n as nat)));
            },
            None => {},
        }
        let ghost c = text@;
        if self.log_frame_stats {
            assert(any == (c.len() > 0)) by {
                reveal_strlit("FORCE_SNAPSHOT_EVERY=");
            }
            if any {
                text.append(", ");
            }
            text.append("LOG_FRAME_STATS=1");
            assert(text@ =~= joined(c, "LOG_FRAME_STATS=1"@));
        }
        text
    }
}

/// `list` with `item` added, after a comma and a space unless `list` is
/// empty.
pub open spec fn joined(list: Seq<char>, item: Seq<char>) -> Seq<char> {
    if list.len() == 0 {
        item
    } else {
        list + ", "@ + item
    }
}

/// Whether this frame is one on which every client gets a snapshot: every
/// `n`-th frame, where the switch is set to an `n` above 0.
pub open spec fn spec_snapshot_forced(every: Option<u32>, frame_count: u32) -> bool {
    match every {
        Some(n) => n > 0 && frame_count % n == 0,
        None => false,
    }
}

pub fn snapshot_forced(every: Option<u32>, frame_count: u32) -> (b: bool)
    ensures
        b == spec_snapshot_forced(every, frame_count),
{
    match every {
        Some(n) => n > 0 && frame_count % n == 0,
        None => false,
    }
}

/// Whether this delta is dropped on purpose: every `n`-th delta, where the
/// switch is set to an `n` above 0.
pub open spec fn spec_delta_dropped(nth: Option<u32>, delta_count: u32) -> bool {
    match nth {
        Some(n) => n > 0 && delta_count % n == 0,
        None => false,
    }
}

pub fn delta_dropped(nth: Option<u32>, delta_count: u32) -> (b: bool)
    ensures
        b == spec_delta_dropped(nth, delta_count),
{
    match nth {
        Some(n) => n > 0 && delta_count % n == 0,
        None => false,
    }
}

/// Whether a client that shows `presented` is let in: always where no token
/// is configured, otherwise only with that very token.
pub open spec fn spec_authenticated(expected: Option<Seq<u8>>, presented: Seq<u8>) -> bool {
    match expected {
        Some(token) => presented == token,
        None => true,
    }
}

pub fn authenticate(expected: &Option<Vec<u8>>, presented: &Vec<u8>) -> (b: bool)
    ensures
        b == spec_authenticated(
            match *expected {
                Some(token) => Some(token@),
                None => None,
            },
            presented@,
        ),
{
    match expected {
        Some(token) => constant_time_eq(presented.as_slice(), token.as_slice()),
        None => true,
    }
}

/// What the server has to say about its own authentication when it starts.
#[derive(Debug, Clone, Copy, PartialEq, Eq, Structural)]
pub enum AuthWarning {
    /// A bearer token is configured: nothing to say.
    Quiet,
    /// No bearer token, but only this machine can connect: any client on it
    /// is let in.
    Unauthenticated,
    /// No bearer token, and the server listens beyond this machine: the
    /// session is open to the network.
    UnauthenticatedAndExposed,
}

pub open spec fn spec_auth_warning(has_token: bool, is_loopback: bool) -> AuthWarning {
    if has_token {
        AuthWarning::Quiet
    } else if is_loopback {
        AuthWarning::Unauthenticated
    } else {
        AuthWarning::UnauthenticatedAndExposed
    }
}

/// What the server has to say about its own authentication when it starts,
/// given whether a bearer token is configured and whether it listens on a
/// loopback address.
pub fn auth_warning(has_token: bool, is_loopback: bool) -> (w: AuthWarning)
    ensures
        w == spec_auth_warning(has_token, is_loopback),
{
    if has_token {
        AuthWarning::Quiet
    } else if is_loopback {
        AuthWarning::Unauthenticated
    } else {
        AuthWarning::UnauthenticatedAndExposed
    }
}

/// Whether the server speaks the client's version: a client that names a
/// version has to name major version 1.
pub open spec fn spec_version_accepted(version: Option<ProtocolVersion>) -> bool {
    match version {
        Some(v) => v.major == crate::ZRP_VERSION_MAJOR,
        None => true,
    }
}

pub fn version_accepted(version: &Option<ProtocolVersion>) -> (b: bool)
    ensures
        b == spec_version_accepted(*version),
{
    match version {
        Some(v) => v.major == crate::ZRP_VERSION_MAJOR,
        None => true,
    }
}

/// The error that the client is sent before the connection is closed, for
/// the failures that the client is told of: a bad frame is a bad message,
/// another version is a bad version, a wrong bearer token is unauthorized,
/// and all three are fatal. A stream that ended and a first message that is
/// no hello end the connection without a word.
pub open spec fn spec_error_reply(error: HandshakeError) -> Option<(i32, Seq<char>)> {
    match error {
        HandshakeError::BadFrame(_) => Some(
            (crate::protocol::protocol_error::Code::BadMessage.spec_code(), "bad frame header"@),
        ),
        HandshakeError::VersionMismatch => Some(
            (crate::protocol::protocol_error::Code::BadVersion.spec_code(), "unsupported protocol version"@),
        ),
        HandshakeError::AuthFailed => Some(
            (crate::protocol::protocol_error::Code::Unauthorized.spec_code(), "invalid bearer token"@),
        ),
        HandshakeError::ConnectionClosed => None,
        HandshakeError::WrongFirstMessage => None,
    }
}

/// The error that the client is sent before the connection is closed.
pub fn error_reply(error: HandshakeError) -> (reply: Option<ProtocolError>)
    ensures
        reply.is_some() == spec_error_reply(error).is_some(),
        reply matches Some(e) ==> e.fatal && spec_error_reply(error) == Some((e.code, e.message@)),
{
    match error {
        HandshakeError::BadFrame(_) => Some(
            ProtocolError {
                code: crate::protocol::protocol_error::Code::BadMessage.code(),
                message: String::from_str("bad frame header"),
                fatal: true,
            },
        ),
        HandshakeError::VersionMismatch => Some(
            ProtocolError {
                code: crate::protocol::protocol_error::Code::BadVersion.code(),
                message: String::from_str("unsupported protocol version"),
                fatal: true,
            },
        ),
        HandshakeError::AuthFailed => Some(
            ProtocolError {
                code: crate::protocol::protocol_error::Code::Unauthorized.code(),
                message: String::from_str("invalid bearer token"),
                fatal: true,
            },
        ),
        HandshakeError::ConnectionClosed => None,
        HandshakeError::WrongFirstMessage => None,
    }
}

/// A client that was let in.
#[derive(Debug)]
pub struct Accepted {
    /// The client's id: the one it had before if it resumed, a new one
    /// otherwise.
    pub client_id: u64,
    pub resumed: bool,
    pub server_hello: ServerHello,
    /// What the client is sent right after the hello: a delta if it resumed,
    /// a snapshot otherwise.
    pub first_update: Option<RenderUpdate>,
}

/// The error that a refused input is answered with.
pub open spec fn is_lease_denied(error: ProtocolError) -> bool {
    error.code == crate::protocol::protocol_error::Code::LeaseDenied.spec_code() && error.message@
        == "Not the controller"@ && !error.fatal
}

/// What becomes of an input event.
#[derive(Debug)]
pub enum InputOutcome {
    /// The client is not the controller and is told so; the connection
    /// stays.
    NotController(ProtocolError),
    /// The input was taken: the acknowledgement goes to the client, and what
    /// the input writes goes to the controller's pane.
    Taken { ack: InputAck, write: Option<WriteAction> },
    /// The input was out of order or a duplicate, or the client has no
    /// receiver: it is dropped.
    Dropped(InputError),
}

/// What a request for control is answered with.
#[derive(Debug)]
pub enum ControlResponse {
    Grant(GrantControl),
    Deny(DenyControl),
}

/// The resume token that the hello of a handshake carries: it names the
/// session and the client, and for a client that resumed the state and the
/// input that the client's old token named; for a fresh client it names
/// state 0 and input 0, since nothing was sent to the client yet.
pub open spec fn handshake_token(
    session_id: u64,
    client_id: u64,
    resumed_from: Option<crate::resume_token::ResumeToken>,
    unix_now_ms: u64,
) -> crate::resume_token::ResumeToken {
    crate::resume_token::ResumeToken {
        session_id,
        client_id,
        last_applied_state_id: match resumed_from {
            Some(t) => t.last_applied_state_id,
            None => 0,
        },
        last_acked_input_seq: match resumed_from {
            Some(t) => t.last_acked_input_seq,
            None => 0,
        },
        issued_at_ms: unix_now_ms,
    }
}

/// Lets a client in, or refuses it.
///
/// A client that names another major version is refused, and so is one
/// whose bearer token is not the configured one. A client that shows a
/// resume token which the session accepts is attached again under its old
/// id. Any other client is attached under `new_client_id` with a fresh
/// render state, and asks for control without force. Either way the hello
/// carries the standing lease, where there is one, and a fresh resume token,
/// and the first update follows.
pub fn accept_client(
    session: &mut RemoteSession,
    hello: &ClientHello,
    new_client_id: u64,
    session_name: &str,
    expected_token: &Option<Vec<u8>>,
    unix_now_ms: u64,
    lease_now_ms: u64,
) -> (r: Result<Accepted, HandshakeError>)
    requires
        old(session).lease_manager@.next_lease_id < u64::MAX,
    ensures
        !spec_version_accepted(hello.version) ==> r == Err::<Accepted, HandshakeError>(
            HandshakeError::VersionMismatch,
        ),
        spec_version_accepted(hello.version) && !spec_authenticated(
            match *expected_token {
                Some(token) => Some(token@),
                None => None,
            },
            hello.bearer_token@,
        ) ==> r == Err::<Accepted, HandshakeError>(HandshakeError::AuthFailed),
        r.is_err() ==> final(session).clients == old(session).clients && final(session).input_receivers
            == old(session).input_receivers && final(session).lease_manager == old(session).lease_manager,
        r.is_ok() == (spec_version_accepted(hello.version) && spec_authenticated(
            match *expected_token {
                Some(token) => Some(token@),
                None => None,
            },
            hello.bearer_token@,
        )),
        r matches Ok(accepted) ==> {
            &&& accepted.resumed == (hello.resume_token@.len() > 0 && old(session).resume_result(
                hello.resume_token@,
                unix_now_ms,
            ) is Resumed)
            &&& accepted.resumed ==> old(session).resume_result(hello.resume_token@, unix_now_ms)
                == (ResumeResult::Resumed {
                client_id: accepted.client_id,
                baseline_state_id: final(session).clients@[accepted.client_id]@.baseline_state_id,
            }) && final(session).lease_manager == old(session).lease_manager
            &&& !accepted.resumed ==> accepted.client_id == new_client_id && final(session).lease_manager@
                == old(session).lease_manager@.after_request(
                new_client_id,
                DisplaySize { cols: 80, rows: 24 },
                false,
                lease_now_ms,
            )
            &&& final(session).clients@.contains_key(accepted.client_id)
            &&& final(session).input_receivers@.contains_key(accepted.client_id)
            &&& accepted.first_update.is_some()
            &&& accepted.resumed ==> accepted.first_update.unwrap() is Delta
            &&& !accepted.resumed ==> accepted.first_update.unwrap() is Snapshot
            &&& hello_matches(
                accepted.server_hello,
                *hello,
                accepted.client_id,
                final(session).lease_manager@.current_lease(lease_now_ms),
                accepted.server_hello.resume_token@,
                session_name@,
            )
            &&& accepted.server_hello.resume_token@.len() == crate::resume_token::SIGNED_TOKEN_SIZE
            &&& accepted.server_hello.resume_token@ == spec_encode_signed(
                handshake_token(
                    old(session).session_id,
                    accepted.client_id,
                    if accepted.resumed {
                        crate::resume_token::spec_decode_signed(hello.resume_token@, old(session).secret())
                    } else {
                        None
                    },
                    unix_now_ms,
                ),
                old(session).secret(),
            )
            &&& RemoteSession::update_matches(
                accepted.first_update.unwrap(),
                if accepted.resumed {
                    crate::session::resumed_client(
                        HANDSHAKE_RENDER_WINDOW,
                        crate::state_history::lookup(
                            old(session).state_history@,
                            final(session).clients@[accepted.client_id]@.baseline_state_id,
                        ).unwrap(),
                        final(session).clients@[accepted.client_id]@.baseline_state_id,
                    )
                } else {
                    ClientRenderState::new_model(HANDSHAKE_RENDER_WINDOW)
                },
                final(session).clients@[accepted.client_id]@,
                old(session).frame_store.frame()@,
                old(session).frame_store.state(),
                old(session).style_table@,
                watermark_of(final(session).lease_manager@, final(session).input_receivers@),
            )
            &&& final(session).frame_store == old(session).frame_store
            &&& final(session).state_history == old(session).state_history
            &&& !accepted.resumed && old(session).lease_manager@.request_granted(new_client_id, false)
                ==> accepted.server_hello.lease.is_some() && accepted.server_hello.lease.unwrap().owner_client_id
                == new_client_id
        },
{
    if !version_accepted(&hello.version) {
        return Err(HandshakeError::VersionMismatch);
    }
    if !authenticate(expected_token, &hello.bearer_token) {
        return Err(HandshakeError::AuthFailed);
    }
    let mut resumed_id: Option<u64> = None;
    if hello.resume_token.len() > 0 {
        match session.try_resume_at(hello.resume_token.as_slice(), HANDSHAKE_RENDER_WINDOW, unix_now_ms) {
            ResumeResult::Resumed { client_id, baseline_state_id: _ } => {
                resumed_id = Some(client_id);
            },
            _ => {},
        }
    }
    let (client_id, resumed) = match resumed_id {
        Some(client_id) => (client_id, true),
        None => {
            session.add_client(new_client_id, HANDSHAKE_RENDER_WINDOW);
            let _ = session.lease_manager.request_control_at(
                new_client_id,
                Some(DisplaySize { cols: 80, rows: 24 }),
                false,
                lease_now_ms,
            );
            (new_client_id, false)
        },
    };
    let server_hello = build_server_hello(session, hello, session_name, client_id, unix_now_ms, lease_now_ms);
    let first_update = session.get_render_update(client_id);
    Ok(Accepted { client_id, resumed, server_hello, first_update })
}

/// What becomes of an input event from `remote_id`.
pub fn on_input(session: &mut RemoteSession, remote_id: u64, input: &InputEvent) -> (outcome: InputOutcome)
    ensures
        final(session).same_but_clients(old(session)),
        final(session).clients == old(session).clients,
        final(session).input_receivers@.dom() == old(session).input_receivers@.dom(),
        forall|k: u64|
            k != remote_id && old(session).input_receivers@.contains_key(k) ==> final(session).input_receivers@[k] == old(session).input_receivers@[k],
        match input_verdict(
            old(session).lease_manager@,
            old(session).input_receivers@,
            remote_id,
            input.input_seq,
            input.client_time_ms,
        ) {
            Err(InputError::NotController) => outcome matches InputOutcome::NotController(e)
                && is_lease_denied(e) && final(session).input_receivers == old(session).input_receivers,
            Err(InputError::ClientNotFound) => outcome matches InputOutcome::Dropped(d) && d
                == InputError::ClientNotFound && final(session).input_receivers == old(session).input_receivers,
            Err(e) => outcome matches InputOutcome::Dropped(d) && d == e && final(session).input_receivers@[remote_id]@ == old(session).input_receivers@[remote_id]@,
            Ok(expected) => outcome matches InputOutcome::Taken { ack, write } && ack == expected
                && action_matches(write, spec_translate(*input)) && final(session).input_receivers@[remote_id]@ == (crate::input::ReceiverModel {
                last_processed_seq: input.input_seq,
                pending_rtt_sample: None,
            }),
        },
{
    match session.process_input(remote_id, input) {
        Err(InputError::NotController) => InputOutcome::NotController(
            ProtocolError {
                code: crate::protocol::protocol_error::Code::LeaseDenied.code(),
                message: String::from_str("Not the controller"),
                fatal: false,
            },
        ),
        Err(e) => InputOutcome::Dropped(e),
        Ok(ack) => InputOutcome::Taken { ack, write: translate_input(input) },
    }
}

/// What a request for control from `remote_id` at `now_ms` is answered
/// with: the grant with the new lease, or the denial with the reason and
/// the standing lease.
pub fn on_request_control(session: &mut RemoteSession, remote_id: u64, request: &RequestControl, now_ms: u64) -> (response:
    ControlResponse)
    requires
        old(session).lease_manager@.next_lease_id < u64::MAX,
    ensures
        final(session).lease_manager@ == old(session).lease_manager@.after_request(
            remote_id,
            requested_size(request.desired_size),
            request.force,
            now_ms,
        ),
        final(session).clients == old(session).clients,
        final(session).input_receivers == old(session).input_receivers,
        final(session).frame_store == old(session).frame_store,
        final(session).state_history == old(session).state_history,
        match response {
            ControlResponse::Grant(grant) => grant.lease.is_some() && request_result_ok(
                old(session).lease_manager@,
                LeaseResult::Granted(grant.lease.unwrap()),
                remote_id,
                requested_size(request.desired_size),
                request.force,
                now_ms,
            ),
            ControlResponse::Deny(deny) => request_result_ok(
                old(session).lease_manager@,
                LeaseResult::Denied { reason: deny.reason, current_lease: deny.lease },
                remote_id,
                requested_size(request.desired_size),
                request.force,
                now_ms,
            ),
        },
{
    let result = session.lease_manager.request_control_at(remote_id, request.desired_size, request.force, now_ms);
    match result {
        LeaseResult::Granted(lease) => ControlResponse::Grant(GrantControl { lease: Some(lease) }),
        LeaseResult::Denied { reason, current_lease } => ControlResponse::Deny(
            DenyControl { reason, lease: current_lease },
        ),
    }
}

/// Takes a new screen into the session: every row of `source` that the
/// session's screen has a place for replaces that row, the cursor follows,
/// the state id moves on, and the new state is remembered for clients that
/// come back.
pub fn ingest_frame(session: &mut RemoteSession, source: &FrameData)
    requires
        old(session).frame_store.state() < u64::MAX,
    ensures
        final(session).frame_store.state() == old(session).frame_store.state() + 1,
        final(session).frame_store.frame().cursor == source.cursor,
        final(session).frame_store.frame().cols == old(session).frame_store.frame().cols,
        final(session).frame_store.frame().rows@.len() == old(session).frame_store.frame().rows@.len(),
        forall|i: int|
            0 <= i < old(session).frame_store.frame().rows@.len() ==> (#[trigger] final(session).frame_store.frame().rows@[i])@ == (if i < source.rows@.len() {
                source.rows@[i]@
            } else {
                old(session).frame_store.frame().rows@[i]@
            }),
        final(session).clients == old(session).clients,
        final(session).input_receivers == old(session).input_receivers,
        final(session).lease_manager == old(session).lease_manager,
        final(session).style_table == old(session).style_table,
        final(session).frame_store.dirty() == old(session).frame_store.dirty().union(
            Set::new(
                |i: usize| i < source.rows@.len() && i < old(session).frame_store.frame().rows@.len(),
            ),
        ),
        final(session).state_history.capacity() == old(session).state_history.capacity(),
        exists|now_ms: u64|
            final(session).state_history@ == crate::state_history::pushed(
                old(session).state_history@,
                old(session).state_history.capacity(),
                #[trigger] crate::state_history::entry_at(
                    final(session).frame_store.state(),
                    final(session).frame_store.frame()@,
                    now_ms,
                ),
            ),
{
    let ghost before = session.frame_store.frame().rows@;
    let ghost dirty_before = session.frame_store.dirty();
    let n = source.rows.len();
    let mut i: usize = 0;
    assert(dirty_before =~= dirty_before.union(Set::new(|k: usize| k < 0 && k < before.len())));
    while i < n
        invariant
            i <= n,
            n == source.rows@.len(),
            session.frame_store.dirty() == dirty_before.union(Set::new(|k: usize| k < i && k < before.len())),
            session.frame_store.state() == old(session).frame_store.state(),
            session.frame_store.frame().cols == old(session).frame_store.frame().cols,
            session.frame_store.frame().rows@.len() == before.len(),
            before == old(session).frame_store.frame().rows@,
            forall|j: int|
                0 <= j < before.len() ==> (#[trigger] session.frame_store.frame().rows@[j])@ == (if j < i {
                    source.rows@[j]@
                } else {
                    before[j]@
                }),
            session.clients == old(session).clients,
            session.input_receivers == old(session).input_receivers,
            session.lease_manager == old(session).lease_manager,
            session.style_table == old(session).style_table,
            session.state_history == old(session).state_history,
        decreases n - i,
    {
        let data = source.rows[i].to_row_data();
        session.frame_store.set_row(i, data);
        assert(session.frame_store.dirty() =~= dirty_before.union(
            Set::new(|k: usize| k < i + 1 && k < before.len()),
        ));
        i += 1;
    }
    session.frame_store.set_cursor(source.cursor);
    session.frame_store.advance_state();
    session.record_state_snapshot();
}

/// Whether a client has been sent the screen of `state_id` already and so
/// has nothing to get while the screen stays as it is: it has a baseline,
/// and what is pending for it is that very state.
pub open spec fn nothing_new(client: crate::client_state::ClientModel, state_id: u64) -> bool {
    client.baseline.is_some() && client.pending.is_some() && client.pending_state_id == state_id
}

/// What goes to a client when nothing but time has passed: nothing while
/// the client has been sent the current state, and otherwise what the
/// session has for it. A client without a baseline gets its snapshot even
/// if the screen did not change.
pub fn idle_update(session: &mut RemoteSession, client_id: u64) -> (r: Option<RenderUpdate>)
    ensures
        final(session).same_but_clients(old(session)),
        final(session).input_receivers == old(session).input_receivers,
        final(session).clients@.dom() == old(session).clients@.dom(),
        forall|k: u64|
            k != client_id && old(session).clients@.contains_key(k) ==> final(session).clients@[k] == old(session).clients@[k],
        r.is_some() == (old(session).clients@.contains_key(client_id) && !nothing_new(
            old(session).clients@[client_id]@,
            old(session).frame_store.state(),
        )),
        r.is_none() ==> final(session).clients == old(session).clients,
        r.is_some() ==> RemoteSession::update_matches(
            r.unwrap(),
            old(session).clients@[client_id]@,
            final(session).clients@[client_id]@,
            old(session).frame_store.frame()@,
            old(session).frame_store.state(),
            old(session).style_table@,
            watermark_of(old(session).lease_manager@, old(session).input_receivers@),
        ),
{
    let current = session.frame_store.current_state_id();
    let up_to_date = match session.clients.get(&client_id) {
        Some(client) => client.has_baseline() && client.pending_frame().is_some() && client.pending_state_id()
            == current,
        None => true,
    };
    if up_to_date {
        None
    } else {
        session.get_render_update(client_id)
    }
}

/// Those of the first `n` ids that are attached, in their order.
pub open spec fn attached_among(ids: Seq<u64>, attached: Set<u64>, n: int) -> Seq<u64>
    decreases n,
{
    if n <= 0 {
        Seq::empty()
    } else if attached.contains(ids[n - 1]) {
        attached_among(ids, attached, n - 1).push(ids[n - 1])
    } else {
        attached_among(ids, attached, n - 1)
    }
}

/// The clients that a list of updates is for.
pub open spec fn update_ids(updates: Seq<(u64, RenderUpdate)>) -> Seq<u64> {
    Seq::new(updates.len(), |k: int| updates[k].0)
}

/// Every one of the attached among the first `n` ids is one of these ids
/// and attached.
pub proof fn lemma_attached_among_members(ids: Seq<u64>, attached: Set<u64>, n: int)
    requires
        0 <= n <= ids.len(),
    ensures
        forall|k: int|
            0 <= k < attached_among(ids, attached, n).len() ==> attached.contains(
                #[trigger] attached_among(ids, attached, n)[k],
            ) && exists|p: int| 0 <= p < n && ids[p] == attached_among(ids, attached, n)[k],
    decreases n,
{
    if n > 0 {
        lemma_attached_among_members(ids, attached, n - 1);
        let earlier = attached_among(ids, attached, n - 1);
        let now = attached_among(ids, attached, n);
        assert forall|k: int| 0 <= k < now.len() implies attached.contains(#[trigger] now[k]) && exists|p: int|
            0 <= p < n && ids[p] == now[k] by {
            if k < earlier.len() {
                assert(now[k] == earlier[k]);
                let p = choose|p: int| 0 <= p < n - 1 && ids[p] == earlier[k];
                assert(0 <= p < n && ids[p] == now[k]);
            } else {
                assert(now[k] == ids[n - 1]);
            }
        }
    }
}

/// The state in which a client is updated: the state it was in, without its
/// baseline where a snapshot is forced.
pub open spec fn update_start(client: crate::client_state::ClientModel, force_snapshot: bool)
    -> crate::client_state::ClientModel {
    if force_snapshot {
        crate::client_state::ClientModel { baseline: None, ..client }
    } else {
        client
    }
}

/// The updates that go out on one frame: for every client of `client_ids`
/// that is attached, in that order, what the session has for it. Where
/// `force_snapshot` is set, every one of these clients gets a snapshot.
pub fn collect_updates(session: &mut RemoteSession, client_ids: &Vec<u64>, force_snapshot: bool) -> (updates:
    Vec<(u64, RenderUpdate)>)
    ensures
        final(session).same_but_clients(old(session)),
        final(session).input_receivers == old(session).input_receivers,
        final(session).clients@.dom() == old(session).clients@.dom(),
        update_ids(updates@) == attached_among(
            client_ids@,
            old(session).clients@.dom(),
            client_ids@.len() as int,
        ),
        force_snapshot ==> forall|k: int|
            0 <= k < updates@.len() ==> (#[trigger] updates@[k]).1 is Snapshot,
        forall|id: u64|
            old(session).clients@.contains_key(id) && !client_ids@.contains(id) ==> final(session).clients@[id] == old(session).clients@[id],
        client_ids@.no_duplicates() ==> forall|k: int|
            0 <= k < updates@.len() ==> RemoteSession::update_matches(
                (#[trigger] updates@[k]).1,
                update_start(old(session).clients@[updates@[k].0]@, force_snapshot),
                final(session).clients@[updates@[k].0]@,
                old(session).frame_store.frame()@,
                old(session).frame_store.state(),
                old(session).style_table@,
                watermark_of(old(session).lease_manager@, old(session).input_receivers@),
            ),
{
    let mut updates: Vec<(u64, RenderUpdate)> = Vec::new();
    let mut i: usize = 0;
    assert(update_ids(updates@) =~= Seq::<u64>::empty());
    while i < client_ids.len()
        invariant
            i <= client_ids@.len(),
            session.same_but_clients(old(session)),
            session.input_receivers == old(session).input_receivers,
            session.clients@.dom() == old(session).clients@.dom(),
            update_ids(updates@) == attached_among(client_ids@, old(session).clients@.dom(), i as int),
            force_snapshot ==> forall|k: int| 0 <= k < updates@.len() ==> (#[trigger] updates@[k]).1 is Snapshot,
            forall|id: u64|
                old(session).clients@.contains_key(id) && !client_ids@.subrange(0, i as int).contains(id)
                    ==> session.clients@[id] == old(session).clients@[id],
            client_ids@.no_duplicates() ==> forall|k: int|
                0 <= k < updates@.len() ==> RemoteSession::update_matches(
                    (#[trigger] updates@[k]).1,
                    update_start(old(session).clients@[updates@[k].0]@, force_snapshot),
                    session.clients@[updates@[k].0]@,
                    old(session).frame_store.frame()@,
                    old(session).frame_store.state(),
                    old(session).style_table@,
                    watermark_of(old(session).lease_manager@, old(session).input_receivers@),
                ),
        decreases client_ids@.len() - i,
    {
        let id = client_ids[i];
        let ghost at_start = session.clients@;
        let ghost held = updates@;
        proof {
            lemma_attached_among_members(client_ids@, old(session).clients@.dom(), i as int);
            if client_ids@.no_duplicates() {
                assert(!client_ids@.subrange(0, i as int).contains(id)) by {
                    if client_ids@.subrange(0, i as int).contains(id) {
                        let p = choose|p: int| 0 <= p < i && client_ids@.subrange(0, i as int)[p] == id;
                        assert(client_ids@[p] == client_ids@[i as int]);
                    }
                }
                assert forall|k: int| 0 <= k < held.len() implies (#[trigger] held[k]).0 != id by {
                    assert(update_ids(held)[k] == held[k].0);
                    let listed = attached_among(client_ids@, old(session).clients@.dom(), i as int);
                    let p = choose|p: int| 0 <= p < i && client_ids@[p] == listed[k];
                    assert(client_ids@[p] != client_ids@[i as int]);
                }
            }
        }
        if force_snapshot {
            session.force_client_snapshot(id);
        }
        let ghost listed = update_ids(updates@);
        match session.get_render_update(id) {
            Some(update) => {
                updates.push((id, update));
                assert(update_ids(updates@) =~= listed.push(id));
            },
            None => {},
        }
        proof {
            assert forall|other: u64|
                old(session).clients@.contains_key(other) && !client_ids@.subrange(0, i + 1).contains(other) implies session.clients@[other] == old(session).clients@[other] by {
                assert(client_ids@.subrange(0, i + 1)[i as int] == id);
                assert(other != id);
                if client_ids@.subrange(0, i as int).contains(other) {
                    let p = choose|p: int| 0 <= p < i && client_ids@.subrange(0, i as int)[p] == other;
                    assert(client_ids@.subrange(0, i + 1)[p] == other);
                }
                assert(at_start[other] == old(session).clients@[other]);
            }
            if client_ids@.no_duplicates() {
                assert forall|k: int| 0 <= k < updates@.len() implies RemoteSession::update_matches(
                    (#[trigger] updates@[k]).1,
                    update_start(old(session).clients@[updates@[k].0]@, force_snapshot),
                    session.clients@[updates@[k].0]@,
                    old(session).frame_store.frame()@,
                    old(session).frame_store.state(),
                    old(session).style_table@,
                    watermark_of(old(session).lease_manager@, old(session).input_receivers@),
                ) by {
                    if k < held.len() {
                        assert(updates@[k] == held[k]);
                        assert(held[k].0 != id);
                        assert(update_ids(held)[k] == held[k].0);
                        assert(old(session).clients@.contains_key(held[k].0));
                        assert(session.clients@[held[k].0] == at_start[held[k].0]);
                    } else {
                        assert(updates@[k].0 == id);
                        assert(at_start[id] == old(session).clients@[id]);
                    }
                }
            }
        }
        i += 1;
    }
    assert(client_ids@.subrange(0, i as int) =~= client_ids@);
    updates
}

} // verus!
