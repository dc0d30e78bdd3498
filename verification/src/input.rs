//! Input sequencing: the server accepts a client's input events strictly in
//! order and acknowledges them cumulatively; the client keeps what it sent
//! until the acknowledgement comes back and measures the round trip.

use vstd::prelude::*;
use std::collections::VecDeque;
use crate::clock::MonotonicClock;
use crate::protocol::{InputAck, InputEvent};

verus! {

#[derive(Debug, Clone, Copy, PartialEq, Eq, Structural)]
pub enum InputProcessResult {
    Processed,
    Duplicate,
    OutOfOrder { expected: u64, received: u64 },
}

/// What the server's receiver holds for one client.
pub struct ReceiverModel {
    pub last_processed_seq: u64,
    /// The sequence number and client time that the next acknowledgement
    /// echoes, if an input came in since the last one.
    pub pending_rtt_sample: Option<(u64, u32)>,
}

/// The sequence number that the receiver waits for.
pub open spec fn expected_seq(last: u64) -> u64 {
    if last < u64::MAX {
        (last + 1) as u64
    } else {
        u64::MAX
    }
}

impl ReceiverModel {
    /// What the receiver answers to an input with sequence number `seq`.
    pub open spec fn verdict(self, seq: u64) -> InputProcessResult {
        if seq == 0 {
            InputProcessResult::OutOfOrder { expected: expected_seq(self.last_processed_seq), received: seq }
        } else if seq <= self.last_processed_seq {
            InputProcessResult::Duplicate
        } else if seq != expected_seq(self.last_processed_seq) {
            InputProcessResult::OutOfOrder { expected: expected_seq(self.last_processed_seq), received: seq }
        } else {
            InputProcessResult::Processed
        }
    }

    /// The receiver after an input: only an input that is processed changes
    /// it.
    pub open spec fn received(self, seq: u64, client_time_ms: u32) -> ReceiverModel {
        if self.verdict(seq) == InputProcessResult::Processed {
            ReceiverModel { last_processed_seq: seq, pending_rtt_sample: Some((seq, client_time_ms)) }
        } else {
            self
        }
    }

    /// The acknowledgement that the receiver generates.
    pub open spec fn ack(self) -> InputAck {
        match self.pending_rtt_sample {
            Some((seq, time)) => InputAck {
                acked_seq: self.last_processed_seq,
                rtt_sample_seq: seq,
                echoed_client_time_ms: time,
            },
            None => InputAck {
                acked_seq: self.last_processed_seq,
                rtt_sample_seq: 0,
                echoed_client_time_ms: 0,
            },
        }
    }
}

#[derive(Debug)]
pub struct InputReceiver {
    last_processed_seq: u64,
    pending_rtt_sample: Option<(u64, u32)>,
}

impl View for InputReceiver {
    type V = ReceiverModel;

    closed spec fn view(&self) -> ReceiverModel {
        ReceiverModel {
            last_processed_seq: self.last_processed_seq,
            pending_rtt_sample: self.pending_rtt_sample,
        }
    }
}

impl InputReceiver {
    pub fn new() -> (r: InputReceiver)
        ensures
            r@ == (ReceiverModel { last_processed_seq: 0, pending_rtt_sample: None }),
    {
        InputReceiver { last_processed_seq: 0, pending_rtt_sample: None }
    }

    /// A receiver that has processed everything up to `seq`, for a client
    /// that comes back.
    pub fn new_from_seq(seq: u64) -> (r: InputReceiver)
        ensures
            r@ == (ReceiverModel { last_processed_seq: seq, pending_rtt_sample: None }),
    {
        InputReceiver { last_processed_seq: seq, pending_rtt_sample: None }
    }

    /// Takes an input event if it is the next in order. An event that was
    /// seen before is a duplicate; sequence number 0 and any gap are out of
    /// order. Only an event that is processed changes the receiver.
    pub fn process_input(&mut self, input: &InputEvent) -> (result: InputProcessResult)
        ensures
            result == old(self)@.verdict(input.input_seq),
            final(self)@ == old(self)@.received(input.input_seq, input.client_time_ms),
    {
        let seq = input.input_seq;
        let expected = if self.last_processed_seq < u64::MAX {
            self.last_processed_seq + 1
        } else {
            u64::MAX
        };
        if seq == 0 {
            return InputProcessResult::OutOfOrder { expected, received: seq };
        }
        if seq <= self.last_processed_seq {
            return InputProcessResult::Duplicate;
        }
        if seq != expected {
            return InputProcessResult::OutOfOrder { expected, received: seq };
        }
        self.last_processed_seq = seq;
        self.pending_rtt_sample = Some((seq, input.client_time_ms));
        InputProcessResult::Processed
    }

    /// The cumulative acknowledgement. It echoes the newest input's time
    /// once; after that the echo is empty until another input is processed.
    pub fn generate_ack(&mut self) -> (ack: InputAck)
        ensures
            ack == old(self)@.ack(),
            final(self)@ == (ReceiverModel { pending_rtt_sample: None, ..old(self)@ }),
    {
        let (rtt_sample_seq, echoed_client_time_ms) = match self.pending_rtt_sample {
            Some((seq, time)) => (seq, time),
            None => (0, 0),
        };
        self.pending_rtt_sample = None;
        InputAck { acked_seq: self.last_processed_seq, rtt_sample_seq, echoed_client_time_ms }
    }

    pub fn last_acked_seq(&self) -> (seq: u64)
        ensures
            seq == self@.last_processed_seq,
    {
        self.last_processed_seq
    }
}

impl Default for InputReceiver {
    fn default() -> (r: InputReceiver)
        ensures
            r@ == (ReceiverModel { last_processed_seq: 0, pending_rtt_sample: None }),
    {
        InputReceiver::new()
    }
}

/// An input that was sent and waits for its acknowledgement. `sent_at_ms` is
/// a time on the sender's clock.
#[derive(Debug, Clone, Copy, PartialEq, Eq, Structural)]
pub struct InflightInput {
    pub seq: u64,
    pub client_time_ms: u32,
    pub sent_at_ms: u64,
}

#[derive(Debug, Clone, Copy, PartialEq, Eq, Structural)]
pub struct RttSample {
    pub rtt_ms: u32,
    pub seq: u64,
}

#[derive(Debug, Clone, Copy, PartialEq, Eq, Structural)]
pub enum AckResult {
    Acked { rtt_sample: Option<RttSample> },
    Stale,
}

/// What the client's sender holds.
pub struct SenderModel {
    pub next_seq: u64,
    pub inflight: Seq<InflightInput>,
    pub max_inflight: usize,
}

/// How many inputs at the front of the queue an acknowledgement up to
/// `acked_seq` covers.
pub open spec fn covered_count(inflight: Seq<InflightInput>, acked_seq: u64) -> nat
    decreases inflight.len(),
{
    if inflight.len() > 0 && inflight[0].seq <= acked_seq {
        1 + covered_count(inflight.drop_first(), acked_seq)
    } else {
        0
    }
}

/// The time in whole milliseconds from `sent_at_ms` to `now_ms`, as the 32
/// bits that a sample holds; 0 if the clock went back.
pub open spec fn rtt_between(sent_at_ms: u64, now_ms: u64) -> u32 {
    if now_ms >= sent_at_ms {
        (now_ms - sent_at_ms) as u32
    } else {
        0u32
    }
}

/// The round-trip sample that an acknowledgement gives over the inputs it
/// covers: that of the last covered input whose sequence number and client
/// time the acknowledgement echoes.
pub open spec fn sample_over(covered: Seq<InflightInput>, ack: InputAck, now_ms: u64) -> Option<RttSample>
    decreases covered.len(),
{
    if covered.len() == 0 {
        None
    } else {
        let last = covered.last();
        if last.seq == ack.rtt_sample_seq && last.client_time_ms == ack.echoed_client_time_ms {
            Some(RttSample { rtt_ms: rtt_between(last.sent_at_ms, now_ms), seq: last.seq })
        } else {
            sample_over(covered.drop_last(), ack, now_ms)
        }
    }
}

impl SenderModel {
    pub open spec fn can_send(self) -> bool {
        self.inflight.len() < self.max_inflight
    }

    /// The sender after `seq` was sent at `now_ms`. Only the next sequence
    /// number in order is taken.
    pub open spec fn sent(self, seq: u64, client_time_ms: u32, now_ms: u64) -> SenderModel {
        if seq == self.next_seq && seq < u64::MAX {
            SenderModel {
                next_seq: (self.next_seq + 1) as u64,
                inflight: self.inflight.push(InflightInput { seq, client_time_ms, sent_at_ms: now_ms }),
                ..self
            }
        } else {
            self
        }
    }

    /// The sender after an acknowledgement: the inputs that it covers leave
    /// the queue.
    pub open spec fn acked(self, ack: InputAck) -> SenderModel {
        if ack.acked_seq == 0 {
            self
        } else {
            SenderModel {
                inflight: self.inflight.skip(covered_count(self.inflight, ack.acked_seq) as int),
                ..self
            }
        }
    }

    /// What the sender answers to an acknowledgement that arrives at
    /// `now_ms`.
    pub open spec fn ack_result(self, ack: InputAck, now_ms: u64) -> AckResult {
        if ack.acked_seq == 0 {
            AckResult::Stale
        } else {
            AckResult::Acked {
                rtt_sample: sample_over(
                    self.inflight.take(covered_count(self.inflight, ack.acked_seq) as int),
                    ack,
                    now_ms,
                ),
            }
        }
    }
}

#[derive(Debug)]
pub struct InputSender {
    next_seq: u64,
    inflight: VecDeque<InflightInput>,
    max_inflight: usize,
    clock: MonotonicClock,
}

impl View for InputSender {
    type V = SenderModel;

    closed spec fn view(&self) -> SenderModel {
        SenderModel { next_seq: self.next_seq, inflight: self.inflight@, max_inflight: self.max_inflight }
    }
}

impl InputSender {
    pub fn new(max_inflight: usize) -> (s: InputSender)
        ensures
            s@ == (SenderModel { next_seq: 1, inflight: Seq::empty(), max_inflight }),
    {
        InputSender { next_seq: 1, inflight: VecDeque::new(), max_inflight, clock: MonotonicClock::new() }
    }

    /// The sender's clock, for callers that pass times of their own.
    pub fn now_ms(&self) -> u64 {
        self.clock.now_ms()
    }

    pub fn can_send(&self) -> (b: bool)
        ensures
            b == self@.can_send(),
    {
        self.inflight.len() < self.max_inflight
    }

    pub fn next_seq(&self) -> (seq: u64)
        ensures
            seq == self@.next_seq,
    {
        self.next_seq
    }

    /// Notes that the input `seq` was sent at `now_ms`. A sequence number
    /// other than the next one is ignored.
    pub fn mark_sent_at(&mut self, seq: u64, client_time_ms: u32, now_ms: u64)
        ensures
            final(self)@ == old(self)@.sent(seq, client_time_ms, now_ms),
    {
        if seq == self.next_seq && seq < u64::MAX {
            self.inflight.push_back(InflightInput { seq, client_time_ms, sent_at_ms: now_ms });
            self.next_seq += 1;
        }
    }

    /// Notes that the input `seq` was sent now, by the sender's own clock.
    pub fn mark_sent(&mut self, seq: u64, client_time_ms: u32)
        ensures
            exists|now_ms: u64| final(self)@ == #[trigger] old(self)@.sent(seq, client_time_ms, now_ms),
    {
        let now_ms = self.clock.now_ms();
        self.mark_sent_at(seq, client_time_ms, now_ms);
    }

    /// Takes an acknowledgement that arrives at `now_ms`: every input up to
    /// the acknowledged sequence number leaves the queue, and the input that
    /// the acknowledgement echoes gives a round-trip sample.
    pub fn process_ack_at(&mut self, ack: &InputAck, now_ms: u64) -> (result: AckResult)
        ensures
            result == old(self)@.ack_result(*ack, now_ms),
            final(self)@ == old(self)@.acked(*ack),
    {
        if ack.acked_seq == 0 {
            return AckResult::Stale;
        }
        let ghost before = self.inflight@;
        let mut rtt_sample: Option<RttSample> = None;
        let ghost mut popped: int = 0;
        proof {
            assert(before.take(0) =~= Seq::<InflightInput>::empty());
            assert(before.skip(0) =~= before);
        }
        while self.inflight.len() > 0 && self.inflight[0].seq <= ack.acked_seq
            invariant
                0 <= popped <= before.len(),
                self.inflight@ == before.skip(popped),
                self.next_seq == old(self).next_seq,
                self.max_inflight == old(self).max_inflight,
                covered_count(before, ack.acked_seq) == popped + covered_count(self.inflight@, ack.acked_seq),
                rtt_sample == sample_over(before.take(popped), *ack, now_ms),
            decreases self.inflight@.len(),
        {
            let ghost queue = self.inflight@;
            let input = self.inflight.pop_front().unwrap();
            proof {
                assert(self.inflight@ =~= queue.drop_first());
                assert(self.inflight@ =~= before.skip(popped + 1));
                assert(before.take(popped + 1).drop_last() =~= before.take(popped));
                assert(before.take(popped + 1).last() == input);
            }
            if input.seq == ack.rtt_sample_seq && input.client_time_ms == ack.echoed_client_time_ms {
                let elapsed: u64 = if now_ms >= input.sent_at_ms {
                    now_ms - input.sent_at_ms
                } else {
                    0
                };
                rtt_sample = Some(RttSample { rtt_ms: #[verifier::truncate] (elapsed as u32), seq: input.seq });
            }
            proof {
                popped = popped + 1;
            }
        }
        AckResult::Acked { rtt_sample }
    }

    /// Takes an acknowledgement that arrives now, by the sender's own clock.
    pub fn process_ack(&mut self, ack: &InputAck) -> (result: AckResult)
        ensures
            final(self)@ == old(self)@.acked(*ack),
            exists|now_ms: u64| result == #[trigger] old(self)@.ack_result(*ack, now_ms),
    {
        let now_ms = self.clock.now_ms();
        self.process_ack_at(ack, now_ms)
    }

    pub fn inflight_count(&self) -> (n: usize)
        ensures
            n == self@.inflight.len(),
    {
        self.inflight.len()
    }
}

} // verus!
