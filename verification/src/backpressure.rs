//! The render window: how many states may be on their way to a client
//! without an acknowledgement.

use vstd::prelude::*;

verus! {

pub const DEFAULT_WINDOW_SIZE: u32 = 4;

/// What a render window holds. State id 0 stands for "none": an empty window
/// has `oldest_unacked == 0` and `newest_sent == 0`.
pub struct WindowModel {
    pub window_size: u32,
    pub oldest_unacked: u64,
    pub newest_sent: u64,
}

impl WindowModel {
    /// Either the window is empty, or it holds the ids from a positive
    /// `oldest_unacked` up to `newest_sent`.
    pub open spec fn wf(self) -> bool {
        &&& (self.oldest_unacked == 0) == (self.newest_sent == 0)
        &&& self.oldest_unacked <= self.newest_sent
    }

    pub open spec fn is_empty(self) -> bool {
        self.oldest_unacked == 0
    }

    /// How many state ids lie between the oldest unacknowledged and the
    /// newest sent, both counted; 0 for an empty window.
    pub open spec fn span(self) -> int {
        if self.oldest_unacked == 0 || self.newest_sent == 0 {
            0
        } else {
            self.newest_sent - self.oldest_unacked + 1
        }
    }

    /// The span as the 32-bit count that the window reports.
    pub open spec fn unacked_count(self) -> u32 {
        self.span() as u32
    }

    /// The window is full: as many states are unacknowledged as it allows.
    /// A window of no slots is always full.
    pub open spec fn exhausted(self) -> bool {
        self.unacked_count() >= self.window_size
    }

    /// There is room to send: fewer states are unacknowledged than the
    /// window allows.
    pub open spec fn can_send(self) -> bool {
        self.unacked_count() < self.window_size
    }

    /// The window after `state_id` was sent.
    pub open spec fn sent(self, state_id: u64) -> WindowModel {
        WindowModel {
            oldest_unacked: if self.oldest_unacked == 0 {
                state_id
            } else {
                self.oldest_unacked
            },
            newest_sent: if state_id > self.newest_sent {
                state_id
            } else {
                self.newest_sent
            },
            ..self
        }
    }

    /// The window after the client acknowledged everything up to `state_id`.
    /// An acknowledgement of something not sent yet changes nothing; one of
    /// the newest state sent empties the window.
    pub open spec fn acked(self, state_id: u64) -> WindowModel {
        if state_id > self.newest_sent {
            self
        } else if state_id < self.oldest_unacked {
            self
        } else if state_id == self.newest_sent {
            WindowModel { oldest_unacked: 0, newest_sent: 0, ..self }
        } else {
            WindowModel { oldest_unacked: (state_id + 1) as u64, ..self }
        }
    }

    /// The window after a snapshot of `state_id`: it holds that state alone.
    pub open spec fn reset(self, state_id: u64) -> WindowModel {
        WindowModel { oldest_unacked: state_id, newest_sent: state_id, ..self }
    }

    /// No more states are unacknowledged than the window allows.
    pub open spec fn within_limit(self) -> bool {
        self.span() <= self.window_size
    }

    /// `state_id` is the next id in order: any id but 0 for an empty window,
    /// the successor of the newest id sent otherwise.
    pub open spec fn is_next(self, state_id: u64) -> bool {
        if self.is_empty() {
            state_id > 0
        } else {
            state_id == self.newest_sent + 1
        }
    }
}

#[derive(Debug)]
pub struct RenderWindow {
    window_size: u32,
    oldest_unacked_state_id: u64,
    newest_sent_state_id: u64,
}

impl View for RenderWindow {
    type V = WindowModel;

    closed spec fn view(&self) -> WindowModel {
        WindowModel {
            window_size: self.window_size,
            oldest_unacked: self.oldest_unacked_state_id,
            newest_sent: self.newest_sent_state_id,
        }
    }
}

impl RenderWindow {
    #[verifier::type_invariant]
    spec fn inv(&self) -> bool {
        self@.wf()
    }

    pub fn new(window_size: u32) -> (w: RenderWindow)
        ensures
            w@ == (WindowModel { window_size, oldest_unacked: 0, newest_sent: 0 }),
    {
        RenderWindow { window_size, oldest_unacked_state_id: 0, newest_sent_state_id: 0 }
    }

    pub fn can_send(&self) -> (b: bool)
        ensures
            self@.wf(),
            b == self@.can_send(),
            b == (self@.unacked_count() < self@.window_size),
            b == !self@.exhausted(),
    {
        !self.is_window_exhausted()
    }

    /// Notes that `state_id` was sent. State ids are meant to be sent in
    /// rising order; an id that is not above the newest one sent leaves a
    /// window that holds something as it is.
    pub fn mark_sent(&mut self, state_id: u64)
        ensures
            final(self)@ == old(self)@.sent(state_id),
            final(self)@.wf(),
    {
        proof {
            use_type_invariant(&*self);
        }
        let oldest = if self.oldest_unacked_state_id == 0 {
            state_id
        } else {
            self.oldest_unacked_state_id
        };
        let newest = if state_id > self.newest_sent_state_id {
            state_id
        } else {
            self.newest_sent_state_id
        };
        *self = RenderWindow {
            window_size: self.window_size,
            oldest_unacked_state_id: oldest,
            newest_sent_state_id: newest,
        };
    }

    /// The client acknowledged every state up to `state_id`.
    pub fn ack_received(&mut self, state_id: u64)
        ensures
            final(self)@ == old(self)@.acked(state_id),
            final(self)@.wf(),
    {
        proof {
            use_type_invariant(&*self);
        }
        if state_id > self.newest_sent_state_id {
            return ;
        }
        if state_id >= self.oldest_unacked_state_id {
            if state_id == self.newest_sent_state_id {
                *self = RenderWindow {
                    window_size: self.window_size,
                    oldest_unacked_state_id: 0,
                    newest_sent_state_id: 0,
                };
            } else {
                *self = RenderWindow {
                    window_size: self.window_size,
                    oldest_unacked_state_id: state_id + 1,
                    newest_sent_state_id: self.newest_sent_state_id,
                };
            }
        }
    }

    pub fn oldest_unacked(&self) -> (r: Option<u64>)
        ensures
            self@.wf(),
            self@.is_empty() ==> r.is_none(),
            !self@.is_empty() ==> r == Some(self@.oldest_unacked),
    {
        proof {
            use_type_invariant(self);
        }
        if self.oldest_unacked_state_id == 0 {
            None
        } else {
            Some(self.oldest_unacked_state_id)
        }
    }

    pub fn is_window_exhausted(&self) -> (b: bool)
        ensures
            self@.wf(),
            b == self@.exhausted(),
    {
        proof {
            use_type_invariant(self);
        }
        self.unacked_count() >= self.window_size
    }

    pub fn unacked_count(&self) -> (n: u32)
        ensures
            self@.wf(),
            n == self@.unacked_count(),
    {
        proof {
            use_type_invariant(self);
        }
        if self.oldest_unacked_state_id == 0 || self.newest_sent_state_id == 0 {
            return 0;
        }
        (self.newest_sent_state_id - self.oldest_unacked_state_id + 1) as u32
    }

    pub fn should_force_snapshot(&self) -> (b: bool)
        ensures
            self@.wf(),
            b == self@.exhausted(),
    {
        self.is_window_exhausted()
    }

    /// Starts over after a snapshot of `new_state_id`: the window holds that
    /// state alone.
    pub fn reset_for_snapshot(&mut self, new_state_id: u64)
        ensures
            final(self)@ == old(self)@.reset(new_state_id),
            final(self)@.wf(),
    {
        *self = RenderWindow {
            window_size: self.window_size,
            oldest_unacked_state_id: new_state_id,
            newest_sent_state_id: new_state_id,
        };
    }

    pub fn window_size(&self) -> (n: u32)
        ensures
            n == self@.window_size,
    {
        self.window_size
    }
}

impl Default for RenderWindow {
    fn default() -> (w: RenderWindow)
        ensures
            w@ == (WindowModel { window_size: DEFAULT_WINDOW_SIZE, oldest_unacked: 0, newest_sent: 0 }),
    {
        RenderWindow::new(DEFAULT_WINDOW_SIZE)
    }
}

/// The window never overfills. A window that is within its limit stays
/// within it when the next state id in order is sent while the window can
/// send, and stays well formed.
pub proof fn lemma_send_keeps_limit(w: WindowModel, state_id: u64)
    requires
        w.wf(),
        w.within_limit(),
        w.can_send(),
        w.is_next(state_id),
    ensures
        w.sent(state_id).wf(),
        w.sent(state_id).within_limit(),
        !w.sent(state_id).is_empty(),
        w.sent(state_id).oldest_unacked > 0,
{
}

/// An acknowledgement, whatever its id, keeps the window well formed and
/// within its limit, and never makes it longer.
pub proof fn lemma_ack_keeps_limit(w: WindowModel, state_id: u64)
    requires
        w.wf(),
        w.within_limit(),
    ensures
        w.acked(state_id).wf(),
        w.acked(state_id).within_limit(),
        w.acked(state_id).span() <= w.span(),
        !w.acked(state_id).is_empty() ==> w.acked(state_id).oldest_unacked > 0,
{
}

/// There is room to send exactly when fewer states are unacknowledged than
/// the window allows, and a window is exhausted exactly when there is no
/// room. For a window within its limit the count is the number of ids from
/// the oldest unacknowledged to the newest sent.
pub proof fn lemma_can_send_iff_room(w: WindowModel)
    requires
        w.wf(),
        w.within_limit(),
    ensures
        w.can_send() <==> w.unacked_count() < w.window_size,
        w.can_send() <==> !w.exhausted(),
        0 <= w.unacked_count() <= w.window_size,
        w.unacked_count() == w.span(),
        w.is_empty() ==> w.unacked_count() == 0,
        !w.is_empty() ==> w.unacked_count() == w.newest_sent - w.oldest_unacked + 1 && w.oldest_unacked
            > 0,
{
}

/// A snapshot starts a window of at least one slot over within its limit:
/// it holds the snapshot's state alone.
pub proof fn lemma_reset_keeps_limit(w: WindowModel, state_id: u64)
    requires
        w.window_size >= 1,
    ensures
        w.reset(state_id).wf(),
        w.reset(state_id).within_limit(),
        w.reset(state_id).window_size == w.window_size,
{
}

} // verus!
