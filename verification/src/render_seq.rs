//! Latest-wins ordering for render updates that travel as datagrams.

use vstd::prelude::*;

verus! {

/// What the client's tracker holds: the baseline it builds on and the last
/// render sequence number it applied on that baseline.
pub struct TrackerModel {
    pub last_applied_seq: u64,
    pub current_baseline_id: u64,
}

impl TrackerModel {
    /// An update is applied only if it builds on the client's baseline and is
    /// newer than what was applied.
    pub open spec fn should_apply(self, baseline_id: u64, render_seq: u64) -> bool {
        baseline_id == self.current_baseline_id && render_seq > self.last_applied_seq
    }

    /// The tracker after `render_seq` was applied. Applying never goes back.
    pub open spec fn applied(self, render_seq: u64) -> TrackerModel {
        if render_seq > self.last_applied_seq {
            TrackerModel { last_applied_seq: render_seq, ..self }
        } else {
            self
        }
    }

    /// The tracker after the update `(baseline_id, render_seq)` arrived: it is
    /// applied if it should be, and dropped otherwise.
    pub open spec fn received(self, baseline_id: u64, render_seq: u64) -> TrackerModel {
        if self.should_apply(baseline_id, render_seq) {
            self.applied(render_seq)
        } else {
            self
        }
    }
}

/// Tracks render sequence numbers on the client.
#[derive(Debug)]
pub struct RenderSeqTracker {
    last_applied_seq: u64,
    current_baseline_id: u64,
}

#[derive(Debug, Clone, Copy, PartialEq, Eq, Structural)]
pub enum DatagramDecision {
    Datagram,
    Stream,
}

impl View for RenderSeqTracker {
    type V = TrackerModel;

    closed spec fn view(&self) -> TrackerModel {
        TrackerModel {
            last_applied_seq: self.last_applied_seq,
            current_baseline_id: self.current_baseline_id,
        }
    }
}

/// How a render update of `payload_len` encoded bytes travels: as a datagram
/// if datagrams were negotiated and the payload fits, on the stream otherwise.
pub open spec fn spec_decide_transport(
    payload_len: nat,
    max_datagram_bytes: u32,
    supports_datagrams: bool,
) -> DatagramDecision {
    if supports_datagrams && payload_len <= max_datagram_bytes {
        DatagramDecision::Datagram
    } else {
        DatagramDecision::Stream
    }
}

impl RenderSeqTracker {
    pub fn new() -> (t: RenderSeqTracker)
        ensures
            t@ == (TrackerModel { last_applied_seq: 0, current_baseline_id: 0 }),
    {
        RenderSeqTracker { last_applied_seq: 0, current_baseline_id: 0 }
    }

    /// Whether a render update should be applied.
    pub fn should_apply(&self, baseline_id: u64, render_seq: u64) -> (b: bool)
        ensures
            b == self@.should_apply(baseline_id, render_seq),
    {
        if baseline_id != self.current_baseline_id {
            return false;
        }
        if render_seq <= self.last_applied_seq {
            return false;
        }
        true
    }

    /// Notes that `render_seq` was applied.
    pub fn mark_applied(&mut self, render_seq: u64)
        ensures
            final(self)@ == old(self)@.applied(render_seq),
    {
        if render_seq > self.last_applied_seq {
            self.last_applied_seq = render_seq;
        }
    }

    /// Sets the baseline and keeps the sequence number.
    pub fn set_baseline(&mut self, baseline_id: u64)
        ensures
            final(self)@ == (TrackerModel { current_baseline_id: baseline_id, ..old(self)@ }),
    {
        self.current_baseline_id = baseline_id;
    }

    /// Starts over on a new baseline after a snapshot.
    pub fn reset_for_snapshot(&mut self, new_baseline_id: u64)
        ensures
            final(self)@ == (TrackerModel { current_baseline_id: new_baseline_id, last_applied_seq: 0 }),
    {
        self.current_baseline_id = new_baseline_id;
        self.last_applied_seq = 0;
    }

    pub fn last_applied_seq(&self) -> (seq: u64)
        ensures
            seq == self@.last_applied_seq,
    {
        self.last_applied_seq
    }

    pub fn current_baseline_id(&self) -> (id: u64)
        ensures
            id == self@.current_baseline_id,
    {
        self.current_baseline_id
    }

    /// Whether an encoded render update goes out as a datagram or on the
    /// stream.
    pub fn decide_transport(&self, encoded_payload: &[u8], max_datagram_bytes: u32, supports_datagrams: bool) -> (d:
        DatagramDecision)
        ensures
            d == spec_decide_transport(encoded_payload@.len(), max_datagram_bytes, supports_datagrams),
    {
        if !supports_datagrams {
            return DatagramDecision::Stream;
        }
        if encoded_payload.len() <= max_datagram_bytes as usize {
            DatagramDecision::Datagram
        } else {
            DatagramDecision::Stream
        }
    }
}

impl Default for RenderSeqTracker {
    fn default() -> (t: RenderSeqTracker)
        ensures
            t@ == (TrackerModel { last_applied_seq: 0, current_baseline_id: 0 }),
    {
        RenderSeqTracker::new()
    }
}

/// Hands out render sequence numbers on the server, starting at 1.
#[derive(Debug)]
pub struct RenderSender {
    next_render_seq: u64,
}

impl RenderSender {
    /// The number that `next_seq` hands out next.
    pub closed spec fn next(&self) -> u64 {
        self.next_render_seq
    }

    pub fn new() -> (s: RenderSender)
        ensures
            s.next() == 1,
    {
        RenderSender { next_render_seq: 1 }
    }

    /// Hands out the next sequence number.
    pub fn next_seq(&mut self) -> (seq: u64)
        requires
            old(self).next() < u64::MAX,
        ensures
            seq == old(self).next(),
            final(self).next() == old(self).next() + 1,
    {
        let seq = self.next_render_seq;
        self.next_render_seq += 1;
        seq
    }

    /// The next sequence number, which stays the next.
    pub fn current_seq(&self) -> (seq: u64)
        ensures
            seq == self.next(),
    {
        self.next_render_seq
    }

    /// Starts the numbers over at 1.
    pub fn reset(&mut self)
        ensures
            final(self).next() == 1,
    {
        self.next_render_seq = 1;
    }
}

impl Default for RenderSender {
    fn default() -> (s: RenderSender)
        ensures
            s.next() == 1,
    {
        RenderSender::new()
    }
}

/// Updates that arrive in reverse order do no harm. Let a first update build
/// on the client's baseline and be newer than what the client applied, and
/// let a second update build on another baseline (as one does that was
/// computed against the first). If the second arrives first it is dropped,
/// the first is then applied, and the client ends at the first one's
/// sequence number.
pub proof fn lemma_reversed_pair(t: TrackerModel, first_seq: u64, second_base: u64, second_seq: u64)
    requires
        first_seq > t.last_applied_seq,
        second_base != t.current_baseline_id,
    ensures
        !t.should_apply(second_base, second_seq),
        t.received(second_base, second_seq) == t,
        t.received(second_base, second_seq).should_apply(t.current_baseline_id, first_seq),
        t.received(second_base, second_seq).received(t.current_baseline_id, first_seq).last_applied_seq
            == first_seq,
{
}

/// An update that is no newer than what was applied is dropped, and what was
/// applied never goes back.
pub proof fn lemma_stale_dropped(t: TrackerModel, baseline_id: u64, render_seq: u64)
    ensures
        render_seq <= t.last_applied_seq ==> t.received(baseline_id, render_seq) == t,
        t.received(baseline_id, render_seq).last_applied_seq >= t.last_applied_seq,
        t.received(baseline_id, render_seq).current_baseline_id == t.current_baseline_id,
{
}

} // verus!
