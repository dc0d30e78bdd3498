//! Core of a remote-attach protocol for a terminal multiplexer: a
//! copy-on-write screen model with sparse deltas, the flow-control and
//! reliability rules around it, and a client-side prediction overlay.

use vstd::prelude::*;

pub mod applier;
pub mod backpressure;
pub mod client_state;
pub mod clock;
pub mod delta;
pub mod frame;
pub mod framing;
pub mod handshake;
pub mod input;
pub mod input_translate;
pub mod instruction;
pub mod lease;
pub mod manager;
pub mod output_convert;
pub mod prediction;
pub mod protocol;
pub mod remote_bridge;
pub mod render_seq;
pub mod resume_token;
pub mod rtt;
pub mod server;
pub mod session;
pub mod state_history;
pub mod style_convert;
pub mod style_table;
pub mod terminal;
pub mod text;

pub use backpressure::RenderWindow;
pub use client_state::ClientRenderState;
pub use delta::DeltaEngine;
pub use frame::{Cell, Cursor, CursorShape, Frame, FrameData, FrameStore, Row, RowData};
pub use framing::{decode_envelope, encode_envelope, DecodeResult};
pub use handshake::{build_server_hello, HandshakeResult};
pub use input::{AckResult, InflightInput, InputProcessResult, InputReceiver, InputSender, RttSample};
pub use input_translate::translate_input;
pub use instruction::{RemoteInputInstruction, RemoteInstruction};
pub use lease::{LeaseEvent, LeaseManager, LeaseResult, LeaseState};
pub use manager::RemoteManager;
pub use output_convert::chunks_to_frame_store;
pub use render_seq::{DatagramDecision, RenderSender, RenderSeqTracker};
pub use resume_token::{ResumeResult, ResumeToken};
pub use rtt::RttEstimator;
pub use session::{InputError, RemoteSession, RenderUpdate};
pub use state_history::StateHistory;
pub use style_table::StyleTable;

verus! {

pub const ZRP_VERSION_MAJOR: u32 = 1;

pub const ZRP_VERSION_MINOR: u32 = 0;

pub const DEFAULT_MAX_DATAGRAM_BYTES: u32 = 1200;

pub const DEFAULT_RENDER_WINDOW: u32 = 4;

} // verus!
