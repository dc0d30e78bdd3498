//! The round-trip estimator: smoothed round-trip time and its variance, the
//! loss rate over a sliding window, the state of the link with hysteresis,
//! and the retransmission timeout that follows from them.
//!
//! Times are kept in fixed point, 65536 units to the millisecond, so that
//! the weights 1/8 and 1/4 of the smoothing are exact shifts.

use vstd::prelude::*;

verus! {

/// Fixed-point units per millisecond.
pub const SCALE: u64 = 65536;

/// The largest fixed-point time: that of the largest sample.
pub const MAX_FP: u64 = 0xFFFF_FFFF_0000;

/// How many samples the loss window holds before it starts over.
pub const LOSS_WINDOW: u32 = 128;

pub const INITIAL_RTO_MS: u32 = 1000;

pub const MAX_RTO_MS: u32 = 60000;

/// The smoothed round-trip time below which the variance ratio is taken
/// against 25 ms.
pub const MIN_SRTT_FOR_RATIO_MS: u64 = 25;

/// What a loss counts as in elapsed time, and the least that a sample counts.
pub const MIN_ELAPSED_MS: u64 = 10;

#[derive(Debug, Clone, Copy, PartialEq, Eq, Structural)]
pub enum LinkState {
    Stable,
    Normal,
    Degraded,
}

/// What the estimator holds.
#[derive(Debug, Clone, Copy, PartialEq, Eq, Structural)]
pub struct RttState {
    /// The smoothed round-trip time in fixed point; none before the first
    /// sample.
    pub srtt_fp: Option<u64>,
    /// The round-trip variance in fixed point.
    pub rttvar_fp: u64,
    pub link: LinkState,
    /// The state that the link seems to be moving to, and for how many
    /// milliseconds it has seemed so without a break.
    pub candidate: LinkState,
    pub candidate_ms: u64,
    /// Samples and losses in the current loss window.
    pub sample_count: u32,
    pub loss_count: u32,
}

/// The lowest retransmission timeout for a link state.
pub open spec fn rto_floor(link: LinkState) -> u32 {
    match link {
        LinkState::Stable => 50u32,
        LinkState::Normal => 100u32,
        LinkState::Degraded => 200u32,
    }
}

/// How long a move from `from` to `to` has to be called for before it is
/// made: 2000 ms to leave Degraded, 1000 ms to enter Stable, 500 ms to enter
/// Degraded, and no time to fall from Stable to Normal.
pub open spec fn dwell_ms(from: LinkState, to: LinkState) -> u64 {
    if from == LinkState::Degraded {
        2000u64
    } else if to == LinkState::Stable {
        1000u64
    } else if to == LinkState::Degraded {
        500u64
    } else {
        0u64
    }
}

/// The distance between two fixed-point times.
pub open spec fn abs_diff(a: u64, b: u64) -> u64 {
    if a >= b {
        (a - b) as u64
    } else {
        (b - a) as u64
    }
}

/// Whether a sample is so far below the smoothed time that the estimate
/// follows it at the fast rate: below 85% of it, or more than twice the
/// variance below it.
pub open spec fn converges_fast(srtt_fp: u64, rttvar_fp: u64, rtt_fp: u64) -> bool {
    100 * rtt_fp < 85 * srtt_fp || rtt_fp + 2 * rttvar_fp < srtt_fp
}

/// The variance after a sample: three quarters of the old variance and one
/// quarter of the sample's distance from the smoothed time.
pub open spec fn next_rttvar(srtt_fp: u64, rttvar_fp: u64, rtt_fp: u64) -> u64 {
    ((3 * rttvar_fp + abs_diff(srtt_fp, rtt_fp)) / 4) as u64
}

/// The smoothed time after a sample: seven eighths old and one eighth new,
/// or three quarters old and one quarter new at the fast rate.
pub open spec fn next_srtt(srtt_fp: u64, rttvar_fp: u64, rtt_fp: u64) -> u64 {
    if converges_fast(srtt_fp, rttvar_fp, rtt_fp) {
        ((3 * srtt_fp + rtt_fp) / 4) as u64
    } else {
        ((7 * srtt_fp + rtt_fp) / 8) as u64
    }
}

impl RttState {
    /// The fixed-point times stay within what samples can reach.
    pub open spec fn wf(self) -> bool {
        &&& self.rttvar_fp <= MAX_FP
        &&& (self.srtt_fp matches Some(s) ==> s <= MAX_FP)
    }

    pub open spec fn initial() -> RttState {
        RttState {
            srtt_fp: None,
            rttvar_fp: 0,
            link: LinkState::Normal,
            candidate: LinkState::Normal,
            candidate_ms: 0,
            sample_count: 0,
            loss_count: 0,
        }
    }

    /// The smoothed time that the variance is held against: the smoothed
    /// time itself, but at least 25 ms.
    pub open spec fn ratio_base_fp(self) -> u64 {
        let floor = (MIN_SRTT_FOR_RATIO_MS * SCALE) as u64;
        match self.srtt_fp {
            Some(s) => if s > floor {
                s
            } else {
                floor
            },
            None => floor,
        }
    }

    /// Samples and losses in the loss window.
    pub open spec fn packets(self) -> int {
        self.sample_count + self.loss_count
    }

    /// The state that variance and loss call for. Stable takes a variance
    /// below 20% of the smoothed time and a loss rate below 1.5%; Degraded
    /// is called for by a variance above 50% or a loss rate above 6%.
    pub open spec fn target(self) -> LinkState {
        if 2 * self.rttvar_fp > self.ratio_base_fp() || 100 * self.loss_count > 6 * self.packets() {
            LinkState::Degraded
        } else if 5 * self.rttvar_fp < self.ratio_base_fp() && 1000 * self.loss_count < 15
            * self.packets() {
            LinkState::Stable
        } else if 5 * self.rttvar_fp < self.ratio_base_fp() && self.loss_count == 0 {
            LinkState::Stable
        } else {
            LinkState::Normal
        }
    }

    /// The state after `elapsed_ms` more milliseconds in which `target` was
    /// called for. A call for the current state ends any move under way. A
    /// call for another state starts a move, or adds to the time of the
    /// move under way; the move is made once that time reaches the dwell.
    pub open spec fn moved(self, target: LinkState, elapsed_ms: u64) -> RttState {
        if target == self.link {
            RttState { candidate: self.link, candidate_ms: 0, ..self }
        } else {
            let waited: u64 = if target == self.candidate {
                if self.candidate_ms + elapsed_ms <= u64::MAX {
                    (self.candidate_ms + elapsed_ms) as u64
                } else {
                    u64::MAX
                }
            } else {
                0u64
            };
            if waited >= dwell_ms(self.link, target) {
                RttState { link: target, candidate: target, candidate_ms: 0, ..self }
            } else {
                RttState { candidate: target, candidate_ms: waited, ..self }
            }
        }
    }

    /// The estimate after a sample, before the link state is looked at.
    pub open spec fn sampled(self, rtt_ms: u32) -> RttState {
        let rtt_fp = (rtt_ms * SCALE) as u64;
        let fresh = self.sample_count >= LOSS_WINDOW;
        let samples: u32 = if fresh {
            1u32
        } else {
            (self.sample_count + 1) as u32
        };
        let losses: u32 = if fresh {
            0u32
        } else {
            self.loss_count
        };
        match self.srtt_fp {
            None => RttState {
                srtt_fp: Some(rtt_fp),
                rttvar_fp: rtt_fp / 2,
                sample_count: samples,
                loss_count: losses,
                ..self
            },
            Some(s) => RttState {
                srtt_fp: Some(next_srtt(s, self.rttvar_fp, rtt_fp)),
                rttvar_fp: next_rttvar(s, self.rttvar_fp, rtt_fp),
                sample_count: samples,
                loss_count: losses,
                ..self
            },
        }
    }

    /// The state after a sample of `rtt_ms`: the estimate follows the
    /// sample, and the link state moves by the sample's time, at least 10 ms.
    pub open spec fn after_sample(self, rtt_ms: u32) -> RttState {
        let s = self.sampled(rtt_ms);
        s.moved(
            s.target(),
            if rtt_ms > MIN_ELAPSED_MS {
                rtt_ms as u64
            } else {
                MIN_ELAPSED_MS
            },
        )
    }

    /// The state after a loss: the loss is counted, and the link state moves
    /// by 10 ms.
    pub open spec fn after_loss(self) -> RttState {
        let s = RttState {
            loss_count: if self.loss_count < u32::MAX {
                (self.loss_count + 1) as u32
            } else {
                u32::MAX
            },
            ..self
        };
        s.moved(s.target(), MIN_ELAPSED_MS)
    }

    /// A fixed-point time in whole milliseconds, rounded to the nearest.
    pub open spec fn round_ms(fp: int) -> int {
        (fp + SCALE / 2) / (SCALE as int)
    }

    /// The smoothed round-trip time in milliseconds.
    pub open spec fn srtt_ms(self) -> Option<u32> {
        match self.srtt_fp {
            Some(s) => Some(Self::round_ms(s as int) as u32),
            None => None,
        }
    }

    /// The retransmission timeout: 1000 ms before the first sample; after it
    /// the smoothed time plus four times the variance, but not below the
    /// link state's floor and not above 60 seconds.
    pub open spec fn rto_ms(self) -> u32 {
        match self.srtt_fp {
            None => INITIAL_RTO_MS,
            Some(s) => {
                let raw = Self::round_ms(s + 4 * self.rttvar_fp);
                if raw < rto_floor(self.link) {
                    rto_floor(self.link)
                } else if raw > MAX_RTO_MS {
                    MAX_RTO_MS
                } else {
                    raw as u32
                }
            },
        }
    }
}

#[derive(Debug, Clone, Copy)]
pub struct RttEstimator {
    state: RttState,
}

impl View for RttEstimator {
    type V = RttState;

    closed spec fn view(&self) -> RttState {
        self.state
    }
}

impl RttEstimator {
    #[verifier::type_invariant]
    spec fn inv(&self) -> bool {
        self.state.wf()
    }

    pub fn new() -> (e: RttEstimator)
        ensures
            e@ == RttState::initial(),
    {
        RttEstimator {
            state: RttState {
                srtt_fp: None,
                rttvar_fp: 0,
                link: LinkState::Normal,
                candidate: LinkState::Normal,
                candidate_ms: 0,
                sample_count: 0,
                loss_count: 0,
            },
        }
    }

    fn dwell(from: LinkState, to: LinkState) -> (ms: u64)
        ensures
            ms == dwell_ms(from, to),
    {
        match from {
            LinkState::Degraded => 2000,
            _ => match to {
                LinkState::Stable => 1000,
                LinkState::Degraded => 500,
                LinkState::Normal => 0,
            },
        }
    }

    fn target_of(s: &RttState) -> (t: LinkState)
        requires
            s.wf(),
        ensures
            t == s.target(),
    {
        let floor: u64 = MIN_SRTT_FOR_RATIO_MS * SCALE;
        let base: u64 = match s.srtt_fp {
            Some(v) => if v > floor {
                v
            } else {
                floor
            },
            None => floor,
        };
        let packets: u64 = s.sample_count as u64 + s.loss_count as u64;
        let losses: u64 = s.loss_count as u64;
        if 2 * s.rttvar_fp > base || 100 * losses > 6 * packets {
            LinkState::Degraded
        } else if 5 * s.rttvar_fp < base && 1000 * losses < 15 * packets {
            LinkState::Stable
        } else if 5 * s.rttvar_fp < base && losses == 0 {
            LinkState::Stable
        } else {
            LinkState::Normal
        }
    }

    fn move_link(s: RttState, target: LinkState, elapsed_ms: u64) -> (r: RttState)
        ensures
            r == s.moved(target, elapsed_ms),
            r.srtt_fp == s.srtt_fp,
            r.rttvar_fp == s.rttvar_fp,
    {
        if target == s.link {
            RttState { candidate: s.link, candidate_ms: 0, ..s }
        } else {
            let waited: u64 = if target == s.candidate {
                if s.candidate_ms <= u64::MAX - elapsed_ms {
                    s.candidate_ms + elapsed_ms
                } else {
                    u64::MAX
                }
            } else {
                0
            };
            if waited >= Self::dwell(s.link, target) {
                RttState { link: target, candidate: target, candidate_ms: 0, ..s }
            } else {
                RttState { candidate: target, candidate_ms: waited, ..s }
            }
        }
    }

    /// Takes a round-trip sample of `rtt_ms` milliseconds.
    pub fn record_sample(&mut self, rtt_ms: u32)
        ensures
            final(self)@ == old(self)@.after_sample(rtt_ms),
    {
        proof {
            use_type_invariant(&*self);
        }
        let s = self.state;
        let rtt_fp: u64 = rtt_ms as u64 * SCALE;
        assert(rtt_fp <= MAX_FP) by (nonlinear_arith)
            requires
                rtt_fp == rtt_ms as u64 * SCALE,
                rtt_ms <= u32::MAX,
                SCALE == 65536,
                MAX_FP == 0xFFFF_FFFF_0000,
        ;
        let fresh = s.sample_count >= LOSS_WINDOW;
        let samples: u32 = if fresh {
            1
        } else {
            s.sample_count + 1
        };
        let losses: u32 = if fresh {
            0
        } else {
            s.loss_count
        };
        let sampled = match s.srtt_fp {
            None => RttState {
                srtt_fp: Some(rtt_fp),
                rttvar_fp: rtt_fp / 2,
                sample_count: samples,
                loss_count: losses,
                ..s
            },
            Some(srtt) => {
                let dev: u64 = if srtt >= rtt_fp {
                    srtt - rtt_fp
                } else {
                    rtt_fp - srtt
                };
                let fast = 100 * rtt_fp < 85 * srtt || rtt_fp + 2 * s.rttvar_fp < srtt;
                let new_rttvar: u64 = (3 * s.rttvar_fp + dev) / 4;
                let new_srtt: u64 = if fast {
                    (3 * srtt + rtt_fp) / 4
                } else {
                    (7 * srtt + rtt_fp) / 8
                };
                RttState {
                    srtt_fp: Some(new_srtt),
                    rttvar_fp: new_rttvar,
                    sample_count: samples,
                    loss_count: losses,
                    ..s
                }
            },
        };
        assert(sampled == s.sampled(rtt_ms));
        let elapsed: u64 = if rtt_ms as u64 > MIN_ELAPSED_MS {
            rtt_ms as u64
        } else {
            MIN_ELAPSED_MS
        };
        let target = Self::target_of(&sampled);
        self.state = Self::move_link(sampled, target, elapsed);
    }

    /// Takes note of a loss.
    pub fn record_loss(&mut self)
        ensures
            final(self)@ == old(self)@.after_loss(),
    {
        proof {
            use_type_invariant(&*self);
        }
        let s = self.state;
        let counted = RttState {
            loss_count: if s.loss_count < u32::MAX {
                s.loss_count + 1
            } else {
                u32::MAX
            },
            ..s
        };
        let target = Self::target_of(&counted);
        self.state = Self::move_link(counted, target, MIN_ELAPSED_MS);
    }

    /// The smoothed round-trip time in milliseconds, rounded; none before
    /// the first sample.
    pub fn srtt_ms(&self) -> (r: Option<u32>)
        ensures
            r == self@.srtt_ms(),
    {
        proof {
            use_type_invariant(self);
        }
        match self.state.srtt_fp {
            Some(s) => Some(((s + SCALE / 2) / SCALE) as u32),
            None => None,
        }
    }

    /// The round-trip variance in milliseconds, rounded.
    pub fn rttvar_ms(&self) -> (r: u32)
        ensures
            r == RttState::round_ms(self@.rttvar_fp as int),
    {
        proof {
            use_type_invariant(self);
        }
        ((self.state.rttvar_fp + SCALE / 2) / SCALE) as u32
    }

    /// The round-trip variance in microseconds, rounded down.
    pub fn rttvar_micros(&self) -> (r: u64)
        ensures
            r == self@.rttvar_fp * 1000 / (SCALE as int),
    {
        proof {
            use_type_invariant(self);
        }
        self.state.rttvar_fp * 1000 / SCALE
    }

    /// The state of the link.
    pub fn link_state(&self) -> (l: LinkState)
        ensures
            l == self@.link,
    {
        self.state.link
    }

    /// The retransmission timeout in milliseconds. It never lies below the
    /// floor of the link's state once there is a sample, and never above 60
    /// seconds.
    pub fn rto_ms(&self) -> (rto: u32)
        ensures
            rto == self@.rto_ms(),
            rto <= MAX_RTO_MS,
            self@.srtt_fp.is_some() ==> rto >= rto_floor(self@.link),
            self@.srtt_fp.is_none() ==> rto == INITIAL_RTO_MS,
    {
        proof {
            use_type_invariant(self);
        }
        match self.state.srtt_fp {
            None => INITIAL_RTO_MS,
            Some(s) => {
                let raw: u64 = (s + 4 * self.state.rttvar_fp + SCALE / 2) / SCALE;
                let floor: u32 = match self.state.link {
                    LinkState::Stable => 50,
                    LinkState::Normal => 100,
                    LinkState::Degraded => 200,
                };
                if raw < floor as u64 {
                    floor
                } else if raw > MAX_RTO_MS as u64 {
                    MAX_RTO_MS
                } else {
                    raw as u32
                }
            },
        }
    }
}

impl Default for RttEstimator {
    fn default() -> (e: RttEstimator)
        ensures
            e@ == RttState::initial(),
    {
        RttEstimator::new()
    }
}

/// The timeout respects the link. Whatever the estimator holds, its timeout
/// is at most 60 seconds; and once there is a sample it is at least 50 ms on
/// a stable link, 100 ms on a normal one and 200 ms on a degraded one.
pub proof fn lemma_rto_bounds(s: RttState)
    ensures
        s.rto_ms() <= MAX_RTO_MS,
        s.srtt_fp.is_some() ==> s.rto_ms() >= rto_floor(s.link),
        s.srtt_fp.is_some() && s.link == LinkState::Stable ==> s.rto_ms() >= 50,
        s.srtt_fp.is_some() && s.link == LinkState::Degraded ==> s.rto_ms() >= 200,
{
}

/// The link changes state only after its dwell: a call for another state
/// moves the link only if the time for which that state has been called for
/// without a break, this call's time included, reaches the dwell.
pub proof fn lemma_moves_after_dwell(s: RttState, target: LinkState, elapsed_ms: u64)
    ensures
        s.moved(target, elapsed_ms).link == target || s.moved(target, elapsed_ms).link == s.link,
        s.moved(target, elapsed_ms).link != s.link ==> target != s.link && (if target == s.candidate {
            s.candidate_ms + elapsed_ms >= dwell_ms(s.link, target)
        } else {
            dwell_ms(s.link, target) == 0
        }),
{
}

} // verus!
