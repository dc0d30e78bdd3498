//! What the server keeps for one attached client: the screen the client
//! acknowledged, the screen last sent to it, and its render window.

use vstd::prelude::*;
use crate::backpressure::{RenderWindow, WindowModel};
use crate::delta::{delta_matches, snapshot_matches, DeltaEngine};
use crate::frame::{FrameData, FrameView};
use crate::protocol::{ScreenDelta, ScreenSnapshot, StateAck};
use crate::style_table::StyleTable;

verus! {

/// What a client's render state holds.
pub struct ClientModel {
    pub window: WindowModel,
    /// The screen that the client is known to have, if any.
    pub baseline: Option<FrameView>,
    pub baseline_state_id: u64,
    /// The screen last sent, which waits for its acknowledgement.
    pub pending: Option<FrameView>,
    pub pending_state_id: u64,
}

impl ClientModel {
    /// The next thing sent has to be a snapshot: the client has no baseline,
    /// or its window is full.
    pub open spec fn needs_snapshot(self) -> bool {
        self.baseline.is_none() || self.window.exhausted()
    }

    /// The model after a snapshot of `frame` at `state_id` went out. The
    /// snapshot is its own baseline.
    pub open spec fn after_snapshot(self, frame: FrameView, state_id: u64) -> ClientModel {
        ClientModel {
            window: self.window.reset(state_id),
            baseline: Some(frame),
            baseline_state_id: state_id,
            pending: Some(frame),
            pending_state_id: state_id,
        }
    }

    /// The model after a delta to `frame` at `state_id` went out. The
    /// baseline stays what the client acknowledged.
    pub open spec fn after_delta(self, frame: FrameView, state_id: u64) -> ClientModel {
        ClientModel {
            window: self.window.sent(state_id),
            pending: Some(frame),
            pending_state_id: state_id,
            ..self
        }
    }

    /// The model after the client acknowledged `frame` at `state_id`. An
    /// acknowledgement older than the baseline changes nothing.
    pub open spec fn after_baseline(self, frame: FrameView, state_id: u64) -> ClientModel {
        if state_id >= self.baseline_state_id || self.baseline.is_none() {
            ClientModel { baseline: Some(frame), baseline_state_id: state_id, ..self }
        } else {
            self
        }
    }
}

#[derive(Debug)]
pub struct ClientRenderState {
    render_window: RenderWindow,
    acked_baseline: Option<FrameData>,
    acked_baseline_state_id: u64,
    pending_frame: Option<FrameData>,
    pending_state_id: u64,
}

/// The view of an optional frame.
pub open spec fn opt_view(frame: Option<FrameData>) -> Option<FrameView> {
    match frame {
        Some(f) => Some(f@),
        None => None,
    }
}

impl View for ClientRenderState {
    type V = ClientModel;

    closed spec fn view(&self) -> ClientModel {
        ClientModel {
            window: self.render_window@,
            baseline: opt_view(self.acked_baseline),
            baseline_state_id: self.acked_baseline_state_id,
            pending: opt_view(self.pending_frame),
            pending_state_id: self.pending_state_id,
        }
    }
}

impl ClientRenderState {
    /// The state of a client that has nothing yet.
    pub open spec fn new_model(window_size: u32) -> ClientModel {
        ClientModel {
            window: WindowModel { window_size, oldest_unacked: 0, newest_sent: 0 },
            baseline: None,
            baseline_state_id: 0,
            pending: None,
            pending_state_id: 0,
        }
    }

    pub fn new(window_size: u32) -> (s: ClientRenderState)
        ensures
            s@ == Self::new_model(window_size),
    {
        ClientRenderState {
            render_window: RenderWindow::new(window_size),
            acked_baseline: None,
            acked_baseline_state_id: 0,
            pending_frame: None,
            pending_state_id: 0,
        }
    }

    /// Slides the render window by a state acknowledgement.
    pub fn process_state_ack(&mut self, ack: &StateAck)
        ensures
            final(self)@ == (ClientModel {
                window: old(self)@.window.acked(ack.last_applied_state_id),
                ..old(self)@
            }),
    {
        self.render_window.ack_received(ack.last_applied_state_id);
    }

    /// Makes `acked_frame` the baseline, unless the baseline is newer.
    pub fn advance_baseline(&mut self, acked_state_id: u64, acked_frame: FrameData)
        ensures
            final(self)@ == old(self)@.after_baseline(acked_frame@, acked_state_id),
    {
        if acked_state_id >= self.acked_baseline_state_id || self.acked_baseline.is_none() {
            self.acked_baseline = Some(acked_frame);
            self.acked_baseline_state_id = acked_state_id;
        }
    }

    /// Forgets the baseline, so that the next thing sent is a snapshot.
    pub fn reset_baseline(&mut self)
        ensures
            final(self)@ == (ClientModel { baseline: None, ..old(self)@ }),
    {
        self.acked_baseline = None;
    }

    pub fn should_send_snapshot(&self) -> (b: bool)
        ensures
            b == self@.needs_snapshot(),
    {
        self.acked_baseline.is_none() || self.render_window.should_force_snapshot()
    }

    pub fn can_send(&self) -> (b: bool)
        ensures
            b == self@.window.can_send(),
    {
        self.render_window.can_send()
    }

    /// The delta from the acknowledged baseline to `current_frame`, if there
    /// is a baseline and the window has room. The delta is relative to what
    /// the client acknowledged, never to what was merely sent, so that losing
    /// earlier deltas does no harm.
    pub fn prepare_delta(
        &mut self,
        current_frame: &FrameData,
        current_state_id: u64,
        style_table: &mut StyleTable,
    ) -> (r: Option<ScreenDelta>)
        ensures
            final(style_table)@ == old(style_table)@,
            old(self)@.baseline.is_none() || !old(self)@.window.can_send() ==> r.is_none() && final(self)@ == old(self)@,
            old(self)@.baseline.is_some() && old(self)@.window.can_send() ==> {
                &&& r.is_some()
                &&& r.unwrap().delivered_input_watermark == 0
                &&& delta_matches(
                    r.unwrap(),
                    old(self)@.baseline.unwrap(),
                    current_frame@,
                    None,
                    old(self)@.baseline_state_id,
                    current_state_id,
                )
                &&& final(self)@ == old(self)@.after_delta(current_frame@, current_state_id)
            },
    {
        if !self.render_window.can_send() {
            return None;
        }
        let delta = match &self.acked_baseline {
            None => {
                return None;
            },
            Some(baseline) => DeltaEngine::compute_delta(
                baseline,
                current_frame,
                style_table,
                self.acked_baseline_state_id,
                current_state_id,
                None,
            ),
        };
        self.render_window.mark_sent(current_state_id);
        self.pending_frame = Some(current_frame.clone());
        self.pending_state_id = current_state_id;
        Some(delta)
    }

    /// The snapshot of `current_frame`. Sending it makes it the client's
    /// baseline at once and starts the window over.
    pub fn prepare_snapshot(
        &mut self,
        current_frame: &FrameData,
        current_state_id: u64,
        style_table: &mut StyleTable,
    ) -> (snapshot: ScreenSnapshot)
        ensures
            final(style_table)@ == old(style_table)@,
            snapshot.delivered_input_watermark == 0,
            snapshot_matches(snapshot, current_frame@, old(style_table)@, current_state_id),
            final(self)@ == old(self)@.after_snapshot(current_frame@, current_state_id),
    {
        let snapshot = DeltaEngine::compute_snapshot(current_frame, style_table, current_state_id);
        self.render_window.reset_for_snapshot(current_state_id);
        self.acked_baseline = Some(current_frame.clone());
        self.acked_baseline_state_id = current_state_id;
        self.pending_frame = Some(current_frame.clone());
        self.pending_state_id = current_state_id;
        snapshot
    }

    pub fn pending_frame(&self) -> (r: Option<&FrameData>)
        ensures
            r.is_some() == self@.pending.is_some(),
            r matches Some(f) ==> self@.pending == Some(f@),
    {
        self.pending_frame.as_ref()
    }

    pub fn pending_state_id(&self) -> (id: u64)
        ensures
            id == self@.pending_state_id,
    {
        self.pending_state_id
    }

    pub fn render_window(&self) -> (w: &RenderWindow)
        ensures
            w@ == self@.window,
    {
        &self.render_window
    }

    pub fn render_window_mut(&mut self) -> (w: &mut RenderWindow)
        ensures
            w@ == old(self)@.window,
            final(self)@ == (ClientModel { window: final(w)@, ..old(self)@ }),
    {
        &mut self.render_window
    }

    pub fn baseline_state_id(&self) -> (id: u64)
        ensures
            id == self@.baseline_state_id,
    {
        self.acked_baseline_state_id
    }

    pub fn has_baseline(&self) -> (b: bool)
        ensures
            b == self@.baseline.is_some(),
    {
        self.acked_baseline.is_some()
    }
}

impl Default for ClientRenderState {
    fn default() -> (s: ClientRenderState)
        ensures
            s@ == (ClientModel {
                window: WindowModel { window_size: 4, oldest_unacked: 0, newest_sent: 0 },
                baseline: None,
                baseline_state_id: 0,
                pending: None,
                pending_state_id: 0,
            }),
    {
        ClientRenderState::new(4)
    }
}

} // verus!
