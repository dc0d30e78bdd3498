//! The session: the screen, the clients attached to it, who controls it, and
//! the rules that tie them together.

use vstd::prelude::*;
use vstd::bytes::*;
use vstd::slice::*;
use std::collections::HashMap;
use crate::client_state::{ClientModel, ClientRenderState};
use crate::clock::unix_time_ms;
use crate::delta::{delta_matches, snapshot_matches};
use crate::frame::{FrameStore, FrameView};
use crate::input::{InputProcessResult, InputReceiver, ReceiverModel};
use crate::lease::LeaseManager;
use crate::protocol::{ControllerPolicy, InputAck, InputEvent, ScreenDelta, ScreenSnapshot, StateAck};
use crate::resume_token::{
    spec_decode_signed, spec_encode_signed, spec_expired, spec_future_dated, ResumeResult, ResumeToken,
    DEFAULT_MAX_CLOCK_SKEW_MS, DEFAULT_TOKEN_EXPIRY_MS,
};
use crate::rtt::RttEstimator;
use crate::state_history::{entry_at, lookup, pushed, StateHistory, DEFAULT_HISTORY_SIZE};
use crate::style_table::StyleTable;

verus! {

broadcast use vstd::std_specs::hash::group_hash_axioms;

pub const DEFAULT_LEASE_DURATION_MS: u64 = 30_000;

#[derive(Debug)]
pub enum RenderUpdate {
    Snapshot(ScreenSnapshot),
    Delta(ScreenDelta),
}

#[derive(Debug, Clone, Copy, PartialEq, Eq, Structural)]
pub enum InputError {
    ClientNotFound,
    NotController,
    OutOfOrder { expected: u64, received: u64 },
    Duplicate,
}

/// `rand::RngCore::fill_bytes` on `rand::thread_rng()`: 32 bytes from the
/// thread's random generator. Nothing is claimed of them.
#[verifier::external_body]
fn random_bytes() -> [u8; 32] {
    let mut bytes = [0u8; 32];
    rand::RngCore::fill_bytes(&mut rand::thread_rng(), &mut bytes);
    bytes
}

/// The secret that a session signs resume tokens with, and how long and how
/// far ahead of the clock it takes them.
pub struct TokenSigner {
    expiry_ms: u64,
    max_clock_skew_ms: u64,
    secret: [u8; 32],
}

impl TokenSigner {
    pub closed spec fn secret(&self) -> Seq<u8> {
        self.secret@
    }

    pub closed spec fn expiry(&self) -> u64 {
        self.expiry_ms
    }

    pub closed spec fn skew(&self) -> u64 {
        self.max_clock_skew_ms
    }

    /// A signer with the default expiry of 5 minutes and the default clock
    /// skew of 30 seconds.
    pub fn new(secret: [u8; 32]) -> (t: TokenSigner)
        ensures
            t.secret() == secret@,
            t.expiry() == DEFAULT_TOKEN_EXPIRY_MS,
            t.skew() == DEFAULT_MAX_CLOCK_SKEW_MS,
    {
        TokenSigner {
            expiry_ms: DEFAULT_TOKEN_EXPIRY_MS,
            max_clock_skew_ms: DEFAULT_MAX_CLOCK_SKEW_MS,
            secret,
        }
    }

    pub fn set_expiry(&mut self, expiry_ms: u64)
        ensures
            final(self).expiry() == expiry_ms,
            final(self).skew() == old(self).skew(),
            final(self).secret() == old(self).secret(),
    {
        self.expiry_ms = expiry_ms;
    }

    pub fn set_skew(&mut self, skew_ms: u64)
        ensures
            final(self).skew() == skew_ms,
            final(self).expiry() == old(self).expiry(),
            final(self).secret() == old(self).secret(),
    {
        self.max_clock_skew_ms = skew_ms;
    }

    pub fn expiry_ms(&self) -> (ms: u64)
        ensures
            ms == self.expiry(),
    {
        self.expiry_ms
    }

    pub fn max_clock_skew_ms(&self) -> (ms: u64)
        ensures
            ms == self.skew(),
    {
        self.max_clock_skew_ms
    }

    pub fn secret_bytes(&self) -> (secret: &[u8; 32])
        ensures
            secret@ == self.secret(),
    {
        &self.secret
    }
}

pub struct RemoteSession {
    pub frame_store: FrameStore,
    pub style_table: StyleTable,
    pub lease_manager: LeaseManager,
    pub input_receivers: HashMap<u64, InputReceiver>,
    pub rtt_estimator: RttEstimator,
    pub clients: HashMap<u64, ClientRenderState>,
    pub state_history: StateHistory,
    pub session_id: u64,
    pub tokens: TokenSigner,
}

/// The input watermark that a render update carries: the last input
/// processed from the controller, or 0 where there is no controller or the
/// controller has no receiver.
pub open spec fn watermark_of(lease: crate::lease::LeaseModel, receivers: Map<u64, InputReceiver>) -> u64 {
    match lease.state {
        crate::lease::LeaseState::Active { owner_client_id, .. } => if receivers.contains_key(owner_client_id) {
            receivers[owner_client_id]@.last_processed_seq
        } else {
            0u64
        },
        _ => 0u64,
    }
}

/// What an input from `client_id` with sequence number `seq` and client
/// time `client_time_ms` is answered with: the acknowledgement, which echoes
/// the input, if the client is the controller and the input is the next in
/// order; the error otherwise.
pub open spec fn input_verdict(
    lease: crate::lease::LeaseModel,
    receivers: Map<u64, InputReceiver>,
    client_id: u64,
    seq: u64,
    client_time_ms: u32,
) -> Result<InputAck, InputError> {
    if !lease.controller_is(client_id) {
        Err(InputError::NotController)
    } else if !receivers.contains_key(client_id) {
        Err(InputError::ClientNotFound)
    } else {
        match receivers[client_id]@.verdict(seq) {
            InputProcessResult::Processed => Ok(
                InputAck { acked_seq: seq, rtt_sample_seq: seq, echoed_client_time_ms: client_time_ms },
            ),
            InputProcessResult::Duplicate => Err(InputError::Duplicate),
            InputProcessResult::OutOfOrder { expected, received } => Err(
                InputError::OutOfOrder { expected, received },
            ),
        }
    }
}

/// What an attempt to resume with `token` at `now_ms` is answered with, the
/// checks in their order: the token's time, its session, whether its client
/// is attached already, and whether the history still holds its state.
pub open spec fn resume_verdict(
    token: Option<ResumeToken>,
    now_ms: u64,
    expiry_ms: u64,
    skew_ms: u64,
    session_id: u64,
    attached: Set<u64>,
    history: Seq<crate::state_history::EntryView>,
) -> ResumeResult {
    match token {
        None => ResumeResult::InvalidToken,
        Some(t) => if spec_future_dated(t.issued_at_ms, now_ms, skew_ms) {
            ResumeResult::FutureDatedToken
        } else if spec_expired(t.issued_at_ms, expiry_ms, now_ms) {
            ResumeResult::ExpiredToken
        } else if t.session_id != session_id {
            ResumeResult::SessionMismatch
        } else if attached.contains(t.client_id) {
            ResumeResult::ClientIdInUse
        } else if lookup(history, t.last_applied_state_id).is_none() {
            ResumeResult::StateNotFound
        } else {
            ResumeResult::Resumed { client_id: t.client_id, baseline_state_id: t.last_applied_state_id }
        },
    }
}

/// The render state of a client that resumed from `frame` at `state_id`.
pub open spec fn resumed_client(window_size: u32, frame: FrameView, state_id: u64) -> ClientModel {
    ClientModel {
        window: crate::backpressure::WindowModel { window_size, oldest_unacked: 0, newest_sent: 0 },
        baseline: Some(frame),
        baseline_state_id: state_id,
        pending: None,
        pending_state_id: 0,
    }
}

impl RemoteSession {
    /// The secret that resume tokens are signed with.
    pub open spec fn secret(&self) -> Seq<u8> {
        self.tokens.secret()
    }

    /// How long a resume token is good for.
    pub open spec fn token_expiry(&self) -> u64 {
        self.tokens.expiry()
    }

    /// How far in the future a resume token may claim to be issued.
    pub open spec fn clock_skew(&self) -> u64 {
        self.tokens.skew()
    }

    /// Everything about the session but its clients and their receivers is
    /// as in `other`.
    pub open spec fn same_but_clients(&self, other: &RemoteSession) -> bool {
        &&& self.frame_store == other.frame_store
        &&& self.style_table@ == other.style_table@
        &&& self.lease_manager == other.lease_manager
        &&& self.rtt_estimator == other.rtt_estimator
        &&& self.state_history == other.state_history
        &&& self.session_id == other.session_id
        &&& self.secret() == other.secret()
        &&& self.token_expiry() == other.token_expiry()
        &&& self.clock_skew() == other.clock_skew()
    }

    /// A fresh session as every constructor leaves it, its id and its secret
    /// apart.
    pub open spec fn is_fresh(&self, cols: usize, rows: usize) -> bool {
        &&& self.frame_store.state() == 0
        &&& self.frame_store.dirty() == Set::<usize>::empty()
        &&& self.frame_store.frame().wf()
        &&& self.frame_store.frame().cols == cols
        &&& self.frame_store.frame().cells() == crate::frame::FrameData::spec_blank(cols as nat, rows as nat)
        &&& self.style_table.wf()
        &&& self.style_table@.len() == 1
        &&& self.lease_manager@ == (crate::lease::LeaseModel {
            state: crate::lease::LeaseState::NoController,
            next_lease_id: 1,
            viewers: Set::empty(),
            policy: ControllerPolicy::LastWriterWins,
            default_duration_ms: DEFAULT_LEASE_DURATION_MS,
        })
        &&& self.input_receivers@ == Map::<u64, InputReceiver>::empty()
        &&& self.clients@ == Map::<u64, ClientRenderState>::empty()
        &&& self.rtt_estimator@ == crate::rtt::RttState::initial()
        &&& self.state_history@.len() == 0
        &&& self.state_history.capacity() == DEFAULT_HISTORY_SIZE
        &&& self.token_expiry() == DEFAULT_TOKEN_EXPIRY_MS
        &&& self.clock_skew() == DEFAULT_MAX_CLOCK_SKEW_MS
    }

    /// A session with a random id and a random token secret.
    pub fn new(cols: usize, rows: usize) -> (s: RemoteSession)
        ensures
            s.is_fresh(cols, rows),
    {
        let seed = random_bytes();
        let session_id = u64_from_le_bytes(slice_subrange(seed.as_slice(), 0, 8));
        Self::with_identity(cols, rows, session_id, random_bytes())
    }

    /// A session with the given id and a random token secret.
    pub fn with_session_id(cols: usize, rows: usize, session_id: u64) -> (s: RemoteSession)
        ensures
            s.is_fresh(cols, rows),
            s.session_id == session_id,
    {
        Self::with_identity(cols, rows, session_id, random_bytes())
    }

    /// A session with a random id and the given token secret.
    pub fn with_token_secret(cols: usize, rows: usize, secret: [u8; 32]) -> (s: RemoteSession)
        ensures
            s.is_fresh(cols, rows),
            s.secret() == secret@,
    {
        let seed = random_bytes();
        let session_id = u64_from_le_bytes(slice_subrange(seed.as_slice(), 0, 8));
        Self::with_identity(cols, rows, session_id, secret)
    }

    /// A session with the given id and token secret.
    pub fn with_identity(cols: usize, rows: usize, session_id: u64, secret: [u8; 32]) -> (s: RemoteSession)
        ensures
            s.is_fresh(cols, rows),
            s.session_id == session_id,
            s.secret() == secret@,
    {
        RemoteSession {
            frame_store: FrameStore::new(cols, rows),
            style_table: StyleTable::new(),
            lease_manager: LeaseManager::new(ControllerPolicy::LastWriterWins, DEFAULT_LEASE_DURATION_MS),
            input_receivers: HashMap::new(),
            rtt_estimator: RttEstimator::new(),
            clients: HashMap::new(),
            state_history: StateHistory::new(DEFAULT_HISTORY_SIZE),
            session_id,
            tokens: TokenSigner::new(secret),
        }
    }

    /// Attaches a client with a fresh render state and a fresh receiver. A
    /// client that was attached under this id is replaced.
    pub fn add_client(&mut self, client_id: u64, window_size: u32)
        ensures
            final(self).same_but_clients(old(self)),
            final(self).clients@.dom() == old(self).clients@.dom().insert(client_id),
            final(self).input_receivers@.dom() == old(self).input_receivers@.dom().insert(client_id),
            final(self).clients@[client_id]@ == ClientRenderState::new_model(window_size),
            final(self).input_receivers@[client_id]@ == (ReceiverModel {
                last_processed_seq: 0,
                pending_rtt_sample: None,
            }),
            forall|k: u64|
                k != client_id && old(self).clients@.contains_key(k) ==> final(self).clients@[k] == old(self).clients@[k],
            forall|k: u64|
                k != client_id && old(self).input_receivers@.contains_key(k) ==> final(self).input_receivers@[k] == old(self).input_receivers@[k],
    {
        self.clients.insert(client_id, ClientRenderState::new(window_size));
        self.input_receivers.insert(client_id, InputReceiver::new());
    }

    /// Detaches a client. If it was the controller, its lease ends.
    pub fn remove_client(&mut self, client_id: u64)
        ensures
            final(self).clients@ == old(self).clients@.remove(client_id),
            final(self).input_receivers@ == old(self).input_receivers@.remove(client_id),
            final(self).frame_store == old(self).frame_store,
            final(self).style_table == old(self).style_table,
            final(self).rtt_estimator == old(self).rtt_estimator,
            final(self).state_history == old(self).state_history,
            final(self).session_id == old(self).session_id,
            final(self).secret() == old(self).secret(),
            final(self).token_expiry() == old(self).token_expiry(),
            final(self).clock_skew() == old(self).clock_skew(),
            final(self).lease_manager@.viewers == old(self).lease_manager@.viewers.remove(client_id),
            final(self).lease_manager@.next_lease_id == old(self).lease_manager@.next_lease_id,
            final(self).lease_manager@.policy == old(self).lease_manager@.policy,
            final(self).lease_manager@.default_duration_ms == old(self).lease_manager@.default_duration_ms,
            old(self).lease_manager@.controller_is(client_id) ==> final(self).lease_manager@.state == (
            crate::lease::LeaseState::Expired { previous_owner: client_id }),
            !old(self).lease_manager@.controller_is(client_id) ==> final(self).lease_manager@.state == old(self).lease_manager@.state,
    {
        let _ = self.clients.remove(&client_id);
        let _ = self.input_receivers.remove(&client_id);
        let _ = self.lease_manager.remove_client(client_id);
    }

    /// Takes an input event from a client. Only the controller's input is
    /// taken, and only in order; what is taken is acknowledged.
    pub fn process_input(&mut self, client_id: u64, input: &InputEvent) -> (r: Result<InputAck, InputError>)
        ensures
            final(self).same_but_clients(old(self)),
            final(self).clients == old(self).clients,
            final(self).input_receivers@.dom() == old(self).input_receivers@.dom(),
            forall|k: u64|
                k != client_id && old(self).input_receivers@.contains_key(k) ==> final(self).input_receivers@[k] == old(self).input_receivers@[k],
            r == input_verdict(
                old(self).lease_manager@,
                old(self).input_receivers@,
                client_id,
                input.input_seq,
                input.client_time_ms,
            ),
            r is Err && (r matches Err(e) && (e is NotController || e is ClientNotFound)) ==> final(self).input_receivers == old(self).input_receivers,
            r is Err && old(self).input_receivers@.contains_key(client_id) ==> final(self).input_receivers@[client_id]@ == old(self).input_receivers@[client_id]@,
            r is Ok ==> final(self).input_receivers@[client_id]@ == (ReceiverModel {
                last_processed_seq: input.input_seq,
                pending_rtt_sample: None,
            }),
    {
        if !self.lease_manager.is_controller(client_id) {
            return Err(InputError::NotController);
        }
        if !self.input_receivers.contains_key(&client_id) {
            return Err(InputError::ClientNotFound);
        }
        let ghost before = self.input_receivers@;
        let mut receiver = match self.input_receivers.remove(&client_id) {
            Some(r) => r,
            None => {
                return Err(InputError::ClientNotFound);
            },
        };
        let ghost taken = receiver;
        let result = receiver.process_input(input);
        let r = match result {
            InputProcessResult::Processed => Ok(receiver.generate_ack()),
            InputProcessResult::Duplicate => Err(InputError::Duplicate),
            InputProcessResult::OutOfOrder { expected, received } => Err(
                InputError::OutOfOrder { expected, received },
            ),
        };
        proof {
            if r.is_err() {
                assert(receiver@ == taken@);
            }
        }
        self.input_receivers.insert(client_id, receiver);
        assert(self.input_receivers@.dom() =~= before.dom());
        r
    }

    /// Takes a state acknowledgement from a client: the client's window
    /// slides, a reported round-trip time above 0 is a sample, and an
    /// acknowledgement that reaches the pending state makes the pending
    /// screen the client's baseline. An acknowledgement from a client that is
    /// not attached changes nothing.
    pub fn process_state_ack(&mut self, client_id: u64, ack: &StateAck)
        ensures
            final(self).frame_store == old(self).frame_store,
            final(self).style_table == old(self).style_table,
            final(self).lease_manager == old(self).lease_manager,
            final(self).input_receivers == old(self).input_receivers,
            final(self).state_history == old(self).state_history,
            final(self).session_id == old(self).session_id,
            final(self).secret() == old(self).secret(),
            final(self).token_expiry() == old(self).token_expiry(),
            final(self).clock_skew() == old(self).clock_skew(),
            final(self).clients@.dom() == old(self).clients@.dom(),
            forall|k: u64|
                k != client_id && old(self).clients@.contains_key(k) ==> final(self).clients@[k] == old(self).clients@[k],
            !old(self).clients@.contains_key(client_id) ==> final(self).rtt_estimator == old(self).rtt_estimator,
            old(self).clients@.contains_key(client_id) ==> {
                &&& final(self).rtt_estimator@ == (if ack.srtt_ms > 0 {
                    old(self).rtt_estimator@.after_sample(ack.srtt_ms)
                } else {
                    old(self).rtt_estimator@
                })
                &&& final(self).clients@[client_id]@ == Self::acked_client(old(self).clients@[client_id]@, *ack)
            },
    {
        let ghost before = self.clients@;
        let mut client_state = match self.clients.remove(&client_id) {
            Some(c) => c,
            None => {
                assert(self.clients@ =~= before);
                return ;
            },
        };
        client_state.process_state_ack(ack);
        if ack.srtt_ms > 0 {
            self.rtt_estimator.record_sample(ack.srtt_ms);
        }
        let pending_state_id = client_state.pending_state_id();
        if ack.last_applied_state_id >= pending_state_id {
            let pending = match client_state.pending_frame() {
                Some(f) => Some(f.clone()),
                None => None,
            };
            match pending {
                Some(frame) => {
                    client_state.advance_baseline(ack.last_applied_state_id, frame);
                },
                None => {},
            }
        }
        self.clients.insert(client_id, client_state);
        assert(self.clients@.dom() =~= before.dom());
    }

    /// A client's render state after a state acknowledgement.
    pub open spec fn acked_client(c: ClientModel, ack: StateAck) -> ClientModel {
        let slid = ClientModel { window: c.window.acked(ack.last_applied_state_id), ..c };
        if ack.last_applied_state_id >= c.pending_state_id && c.pending.is_some() {
            slid.after_baseline(c.pending.unwrap(), ack.last_applied_state_id)
        } else {
            slid
        }
    }

    /// The input watermark that render updates carry now.
    pub fn delivered_watermark(&self) -> (w: u64)
        ensures
            w == watermark_of(self.lease_manager@, self.input_receivers@),
    {
        match self.lease_manager.controller() {
            Some(owner) => match self.input_receivers.get(&owner) {
                Some(receiver) => receiver.last_acked_seq(),
                None => 0,
            },
            None => 0,
        }
    }

    /// What goes to a client next: a snapshot if the client has no baseline
    /// or its window is full, a delta from its acknowledged baseline
    /// otherwise; nothing for a client that is not attached. Either carries
    /// the input watermark.
    pub fn get_render_update(&mut self, client_id: u64) -> (r: Option<RenderUpdate>)
        ensures
            final(self).same_but_clients(old(self)),
            final(self).input_receivers == old(self).input_receivers,
            final(self).clients@.dom() == old(self).clients@.dom(),
            forall|k: u64|
                k != client_id && old(self).clients@.contains_key(k) ==> final(self).clients@[k] == old(self).clients@[k],
            r.is_some() == old(self).clients@.contains_key(client_id),
            old(self).clients@.contains_key(client_id) ==> Self::update_matches(
                r.unwrap(),
                old(self).clients@[client_id]@,
                final(self).clients@[client_id]@,
                old(self).frame_store.frame()@,
                old(self).frame_store.state(),
                old(self).style_table@,
                watermark_of(old(self).lease_manager@, old(self).input_receivers@),
            ),
    {
        let watermark = self.delivered_watermark();
        let ghost before = self.clients@;
        let mut client_state = match self.clients.remove(&client_id) {
            Some(c) => c,
            None => {
                assert(self.clients@ =~= before);
                return None;
            },
        };
        let current_state_id = self.frame_store.current_state_id();
        let r = if client_state.should_send_snapshot() {
            let mut snapshot = client_state.prepare_snapshot(
                self.frame_store.current_frame(),
                current_state_id,
                &mut self.style_table,
            );
            snapshot.delivered_input_watermark = watermark;
            Some(RenderUpdate::Snapshot(snapshot))
        } else {
            match client_state.prepare_delta(
                self.frame_store.current_frame(),
                current_state_id,
                &mut self.style_table,
            ) {
                Some(delta) => {
                    let mut delta = delta;
                    delta.delivered_input_watermark = watermark;
                    Some(RenderUpdate::Delta(delta))
                },
                None => None,
            }
        };
        self.clients.insert(client_id, client_state);
        assert(self.clients@.dom() =~= before.dom());
        r
    }

    /// `update` is what a client in state `before` gets of the screen
    /// `frame` at `state_id`, and `after` is the client's state then.
    pub open spec fn update_matches(
        update: RenderUpdate,
        before: ClientModel,
        after: ClientModel,
        frame: FrameView,
        state_id: u64,
        styles: Seq<crate::protocol::Style>,
        watermark: u64,
    ) -> bool {
        match update {
            RenderUpdate::Snapshot(snapshot) => {
                &&& before.needs_snapshot()
                &&& snapshot_matches(snapshot, frame, styles, state_id)
                &&& snapshot.delivered_input_watermark == watermark
                &&& after == before.after_snapshot(frame, state_id)
            },
            RenderUpdate::Delta(delta) => {
                &&& !before.needs_snapshot()
                &&& delta_matches(delta, before.baseline.unwrap(), frame, None, before.baseline_state_id, state_id)
                &&& delta.delivered_input_watermark == watermark
                &&& after == before.after_delta(frame, state_id)
            },
        }
    }

    pub fn client_count(&self) -> (n: usize)
        ensures
            n == self.clients@.len(),
    {
        self.clients.len()
    }

    pub fn has_client(&self, client_id: u64) -> (b: bool)
        ensures
            b == self.clients@.contains_key(client_id),
    {
        self.clients.contains_key(&client_id)
    }

    /// Makes the next update for a client a snapshot, by forgetting the
    /// client's baseline.
    pub fn force_client_snapshot(&mut self, client_id: u64)
        ensures
            final(self).same_but_clients(old(self)),
            final(self).input_receivers == old(self).input_receivers,
            final(self).clients@.dom() == old(self).clients@.dom(),
            forall|k: u64|
                k != client_id && old(self).clients@.contains_key(k) ==> final(self).clients@[k] == old(self).clients@[k],
            old(self).clients@.contains_key(client_id) ==> final(self).clients@[client_id]@ == (ClientModel {
                baseline: None,
                ..old(self).clients@[client_id]@
            }),
    {
        let ghost before = self.clients@;
        match self.clients.remove(&client_id) {
            Some(c) => {
                let mut client_state = c;
                client_state.reset_baseline();
                self.clients.insert(client_id, client_state);
                assert(self.clients@.dom() =~= before.dom());
            },
            None => {
                assert(self.clients@ =~= before);
            },
        }
    }

    /// Remembers the current screen under the current state id.
    pub fn record_state_snapshot(&mut self)
        ensures
            final(self).frame_store == old(self).frame_store,
            final(self).style_table == old(self).style_table,
            final(self).lease_manager == old(self).lease_manager,
            final(self).rtt_estimator == old(self).rtt_estimator,
            final(self).clients == old(self).clients,
            final(self).input_receivers == old(self).input_receivers,
            final(self).session_id == old(self).session_id,
            final(self).secret() == old(self).secret(),
            final(self).token_expiry() == old(self).token_expiry(),
            final(self).clock_skew() == old(self).clock_skew(),
            final(self).state_history.capacity() == old(self).state_history.capacity(),
            exists|now_ms: u64|
                final(self).state_history@ == pushed(
                    old(self).state_history@,
                    old(self).state_history.capacity(),
                    #[trigger] entry_at(old(self).frame_store.state(), old(self).frame_store.frame()@, now_ms),
                ),
    {
        let state_id = self.frame_store.current_state_id();
        let frame = self.frame_store.current_frame().clone();
        self.state_history.push(state_id, frame);
    }

    /// The token that `client_id` would resume with, issued at `now_ms`: it
    /// names the session, the client, the state of the client's baseline and
    /// the last input processed from it (0 for either where the client is not
    /// attached).
    pub open spec fn token_for(&self, client_id: u64, now_ms: u64) -> ResumeToken {
        ResumeToken {
            session_id: self.session_id,
            client_id,
            last_applied_state_id: if self.clients@.contains_key(client_id) {
                self.clients@[client_id]@.baseline_state_id
            } else {
                0
            },
            last_acked_input_seq: if self.input_receivers@.contains_key(client_id) {
                self.input_receivers@[client_id]@.last_processed_seq
            } else {
                0
            },
            issued_at_ms: now_ms,
        }
    }

    /// A signed resume token for `client_id`, issued at `now_ms`.
    pub fn generate_resume_token_at(&self, client_id: u64, now_ms: u64) -> (bytes: Vec<u8>)
        ensures
            bytes@ == spec_encode_signed(self.token_for(client_id, now_ms), self.secret()),
    {
        let last_applied_state_id = match self.clients.get(&client_id) {
            Some(c) => c.baseline_state_id(),
            None => 0,
        };
        let last_acked_input_seq = match self.input_receivers.get(&client_id) {
            Some(r) => r.last_acked_seq(),
            None => 0,
        };
        let token = ResumeToken::new_at(
            self.session_id,
            client_id,
            last_applied_state_id,
            last_acked_input_seq,
            now_ms,
        );
        token.encode_signed(self.tokens.secret_bytes().as_slice())
    }

    /// A signed resume token for `client_id`, issued now by the system
    /// clock.
    pub fn generate_resume_token(&self, client_id: u64) -> (bytes: Vec<u8>)
        ensures
            exists|now_ms: u64|
                bytes@ == spec_encode_signed(#[trigger] self.token_for(client_id, now_ms), self.secret()),
    {
        let now_ms = unix_time_ms();
        self.generate_resume_token_at(client_id, now_ms)
    }

    /// What `try_resume_at` answers.
    pub open spec fn resume_result(&self, token_bytes: Seq<u8>, now_ms: u64) -> ResumeResult {
        resume_verdict(
            spec_decode_signed(token_bytes, self.secret()),
            now_ms,
            self.token_expiry(),
            self.clock_skew(),
            self.session_id,
            self.clients@.dom(),
            self.state_history@,
        )
    }

    /// Reads a token and says what an attempt to resume with it at `now_ms`
    /// is answered with.
    fn examine(&self, token_bytes: &[u8], now_ms: u64) -> (r: (ResumeResult, Option<ResumeToken>))
        ensures
            r.0 == self.resume_result(token_bytes@, now_ms),
            r.1 == spec_decode_signed(token_bytes@, self.secret()),
    {
        let decoded = ResumeToken::decode_signed(token_bytes, self.tokens.secret_bytes().as_slice());
        let token = match decoded {
            Some(t) => t,
            None => {
                return (ResumeResult::InvalidToken, decoded);
            },
        };
        let verdict = if !token.is_valid_timestamp(
            self.tokens.expiry_ms(),
            now_ms,
            self.tokens.max_clock_skew_ms(),
        ) {
            if token.issued_at_ms > now_ms && token.issued_at_ms - now_ms > self.tokens.max_clock_skew_ms() {
                ResumeResult::FutureDatedToken
            } else {
                ResumeResult::ExpiredToken
            }
        } else if token.session_id != self.session_id {
            ResumeResult::SessionMismatch
        } else if self.clients.contains_key(&token.client_id) {
            ResumeResult::ClientIdInUse
        } else if !self.state_history.can_resume_from(token.last_applied_state_id) {
            ResumeResult::StateNotFound
        } else {
            ResumeResult::Resumed { client_id: token.client_id, baseline_state_id: token.last_applied_state_id }
        };
        (verdict, decoded)
    }

    /// What an attempt at time `now_ms` to resume with a token would be
    /// answered with. Nothing changes.
    pub fn resume_result_of(&self, token_bytes: &[u8], now_ms: u64) -> (result: ResumeResult)
        ensures
            result == self.resume_result(token_bytes@, now_ms),
    {
        self.examine(token_bytes, now_ms).0
    }

    /// Whether this session is what `before` becomes by an attempt to resume
    /// that was answered with `result`. An attempt that fails attaches
    /// nobody. One that succeeds attaches the token's client and no other:
    /// with the remembered screen of the token's state as its acknowledged
    /// baseline, an empty render window of `window_size`, nothing pending,
    /// and a receiver that has processed everything up to the token's last
    /// input.
    pub open spec fn resumed_from(
        &self,
        before: &RemoteSession,
        token_bytes: Seq<u8>,
        window_size: u32,
        result: ResumeResult,
    ) -> bool {
        match result {
            ResumeResult::Resumed { client_id, baseline_state_id } => {
                &&& self.clients@.dom() == before.clients@.dom().insert(client_id)
                &&& self.input_receivers@.dom() == before.input_receivers@.dom().insert(client_id)
                &&& forall|k: u64|
                    k != client_id && before.clients@.contains_key(k) ==> self.clients@[k] == before.clients@[k]
                &&& forall|k: u64|
                    k != client_id && before.input_receivers@.contains_key(k) ==> self.input_receivers@[k]
                        == before.input_receivers@[k]
                &&& self.clients@[client_id]@ == resumed_client(
                    window_size,
                    lookup(before.state_history@, baseline_state_id).unwrap(),
                    baseline_state_id,
                )
                &&& self.input_receivers@[client_id]@ == (ReceiverModel {
                    last_processed_seq: spec_decode_signed(token_bytes, before.secret()).unwrap().last_acked_input_seq,
                    pending_rtt_sample: None,
                })
            },
            _ => self.clients == before.clients && self.input_receivers == before.input_receivers,
        }
    }

    /// An attempt at time `now_ms` to resume with a token. A token that is
    /// accepted attaches its client again: with the remembered screen of the
    /// token's state as its baseline, so that the next update is a delta, and
    /// with a receiver that goes on after the token's last input.
    pub fn try_resume_at(&mut self, token_bytes: &[u8], window_size: u32, now_ms: u64) -> (result:
        ResumeResult)
        ensures
            result == old(self).resume_result(token_bytes@, now_ms),
            final(self).same_but_clients(old(self)),
            final(self).resumed_from(old(self), token_bytes@, window_size, result),
    {
        let examined = self.examine(token_bytes, now_ms);
        let verdict = examined.0;
        let token = match (verdict, examined.1) {
            (ResumeResult::Resumed { client_id: _, baseline_state_id: _ }, Some(t)) => t,
            _ => {
                return verdict;
            },
        };
        let baseline = match self.state_history.get(token.last_applied_state_id) {
            Some(frame) => frame.clone(),
            None => {
                return ResumeResult::StateNotFound;
            },
        };
        let mut client_state = ClientRenderState::new(window_size);
        client_state.advance_baseline(token.last_applied_state_id, baseline);
        self.clients.insert(token.client_id, client_state);
        self.input_receivers.insert(token.client_id, InputReceiver::new_from_seq(token.last_acked_input_seq));
        ResumeResult::Resumed { client_id: token.client_id, baseline_state_id: token.last_applied_state_id }
    }

    /// An attempt to resume with a token now, by the system clock.
    pub fn try_resume(&mut self, token_bytes: &[u8], window_size: u32) -> (result: ResumeResult)
        ensures
            final(self).same_but_clients(old(self)),
            exists|now_ms: u64|
                result == #[trigger] old(self).resume_result(token_bytes@, now_ms) && final(self).resumed_from(
                    old(self),
                    token_bytes@,
                    window_size,
                    result,
                ),
    {
        let now_ms = unix_time_ms();
        self.try_resume_at(token_bytes, window_size, now_ms)
    }

    pub fn set_token_expiry(&mut self, expiry_ms: u64)
        ensures
            final(self).token_expiry() == expiry_ms,
            final(self).clock_skew() == old(self).clock_skew(),
            final(self).secret() == old(self).secret(),
            final(self).frame_store == old(self).frame_store,
            final(self).style_table == old(self).style_table,
            final(self).lease_manager == old(self).lease_manager,
            final(self).rtt_estimator == old(self).rtt_estimator,
            final(self).state_history == old(self).state_history,
            final(self).clients == old(self).clients,
            final(self).input_receivers == old(self).input_receivers,
            final(self).session_id == old(self).session_id,
    {
        self.tokens.set_expiry(expiry_ms);
    }

    pub fn set_max_clock_skew(&mut self, skew_ms: u64)
        ensures
            final(self).clock_skew() == skew_ms,
            final(self).token_expiry() == old(self).token_expiry(),
            final(self).secret() == old(self).secret(),
            final(self).frame_store == old(self).frame_store,
            final(self).style_table == old(self).style_table,
            final(self).lease_manager == old(self).lease_manager,
            final(self).rtt_estimator == old(self).rtt_estimator,
            final(self).state_history == old(self).state_history,
            final(self).clients == old(self).clients,
            final(self).input_receivers == old(self).input_receivers,
            final(self).session_id == old(self).session_id,
    {
        self.tokens.set_skew(skew_ms);
    }

    pub fn can_resume_from_state(&self, state_id: u64) -> (b: bool)
        ensures
            b == lookup(self.state_history@, state_id).is_some(),
    {
        self.state_history.can_resume_from(state_id)
    }

    pub fn token_secret(&self) -> (secret: &[u8; 32])
        ensures
            secret@ == self.secret(),
    {
        self.tokens.secret_bytes()
    }
}

impl Default for RemoteSession {
    fn default() -> (s: RemoteSession)
        ensures
            s.is_fresh(80, 24),
    {
        RemoteSession::new(80, 24)
    }
}

/// The cells of a client's screen after a render update.
pub open spec fn updated_cells(cells: Seq<Seq<crate::frame::Cell>>, update: RenderUpdate) -> Seq<
    Seq<crate::frame::Cell>,
> {
    match update {
        RenderUpdate::Snapshot(snapshot) => crate::applier::snapshot_cells(cells, snapshot),
        RenderUpdate::Delta(delta) => crate::applier::apply_patches(cells, delta.row_patches@),
    }
}

/// What the session sends brings the client up to date. Let `update` be
/// what a client in state `before` gets of the screen `frame`. If it is a
/// snapshot, the client ends with the cells of `frame` whatever it held. If
/// it is a delta, it was computed against the baseline that the client
/// acknowledged, and a client that holds that baseline ends with the cells
/// of `frame`, provided the two screens have one shape. Either way the
/// screen sent is noted as pending under its state id.
pub proof fn lemma_update_brings_client_up_to_date(
    update: RenderUpdate,
    before: ClientModel,
    after: ClientModel,
    frame: FrameView,
    state_id: u64,
    styles: Seq<crate::protocol::Style>,
    watermark: u64,
    client_cells: Seq<Seq<crate::frame::Cell>>,
)
    requires
        RemoteSession::update_matches(update, before, after, frame, state_id, styles, watermark),
        frame.wf(),
        frame.cols <= u32::MAX,
        frame.rows.len() <= u32::MAX,
        update is Delta ==> client_cells == before.baseline.unwrap().cells()
            && crate::applier::same_shape(client_cells, frame.cells()),
    ensures
        updated_cells(client_cells, update) == frame.cells(),
        after.pending == Some(frame),
        after.pending_state_id == state_id,
        update is Snapshot ==> after.baseline == Some(frame) && after.baseline_state_id == state_id,
        update is Delta ==> after.baseline == before.baseline && after.baseline_state_id
            == before.baseline_state_id,
{
    match update {
        RenderUpdate::Snapshot(snapshot) => {
            crate::applier::lemma_snapshot_rebuilds_frame(snapshot, frame, styles, state_id, client_cells);
        },
        RenderUpdate::Delta(delta) => {
            crate::applier::lemma_delta_rebuilds_current(
                delta,
                before.baseline.unwrap(),
                frame,
                None,
                before.baseline_state_id,
                state_id,
            );
        },
    }
}

} // verus!
