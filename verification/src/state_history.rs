//! A bounded history of screens by state id, oldest first. A client that
//! comes back resumes from the screen it last acknowledged if the history
//! still holds it.

use vstd::prelude::*;
use std::collections::VecDeque;
use crate::clock::MonotonicClock;
use crate::frame::{FrameData, FrameView};

verus! {

pub const DEFAULT_HISTORY_SIZE: usize = 64;

/// One remembered screen. `timestamp_ms` is a time on the history's clock.
#[derive(Debug)]
pub struct HistoryEntry {
    pub state_id: u64,
    pub frame: FrameData,
    pub timestamp_ms: u64,
}

/// An entry as contracts speak of it.
pub struct EntryView {
    pub state_id: u64,
    pub frame: FrameView,
    pub timestamp_ms: u64,
}

impl View for HistoryEntry {
    type V = EntryView;

    open spec fn view(&self) -> EntryView {
        EntryView { state_id: self.state_id, frame: self.frame@, timestamp_ms: self.timestamp_ms }
    }
}

impl Clone for HistoryEntry {
    fn clone(&self) -> (e: HistoryEntry)
        ensures
            e@ == self@,
    {
        HistoryEntry { state_id: self.state_id, frame: self.frame.clone(), timestamp_ms: self.timestamp_ms }
    }
}

/// The views of a queue of entries.
pub open spec fn entry_views(entries: Seq<HistoryEntry>) -> Seq<EntryView> {
    Seq::new(entries.len(), |i: int| entries[i]@)
}

/// The position of the first entry with `state_id`, or the number of
/// entries if there is none.
pub open spec fn position_of(entries: Seq<EntryView>, state_id: u64) -> int
    decreases entries.len(),
{
    if entries.len() == 0 {
        0
    } else if entries[0].state_id == state_id {
        0
    } else {
        1 + position_of(entries.drop_first(), state_id)
    }
}

/// The first screen remembered for `state_id`, if there is one.
pub open spec fn lookup(entries: Seq<EntryView>, state_id: u64) -> Option<FrameView> {
    if position_of(entries, state_id) < entries.len() {
        Some(entries[position_of(entries, state_id)].frame)
    } else {
        None
    }
}

/// The entry for `frame` at `state_id`, remembered at `now_ms`.
pub open spec fn entry_at(state_id: u64, frame: FrameView, now_ms: u64) -> EntryView {
    EntryView { state_id, frame, timestamp_ms: now_ms }
}

/// Whether an entry is older than `max_age_ms` at `now_ms`.
pub open spec fn too_old(timestamp_ms: u64, max_age_ms: u64, now_ms: u64) -> bool {
    now_ms > timestamp_ms && now_ms - timestamp_ms > max_age_ms
}

/// How many entries at the front are older than `max_age_ms` at `now_ms`.
pub open spec fn stale_count(entries: Seq<EntryView>, max_age_ms: u64, now_ms: u64) -> nat
    decreases entries.len(),
{
    if entries.len() > 0 && too_old(entries[0].timestamp_ms, max_age_ms, now_ms) {
        1 + stale_count(entries.drop_first(), max_age_ms, now_ms)
    } else {
        0
    }
}

/// The entries after one more was pushed onto a history of `max_size`: a
/// history that is full gives up its oldest entry first.
pub open spec fn pushed(entries: Seq<EntryView>, max_size: usize, entry: EntryView) -> Seq<EntryView> {
    if entries.len() >= max_size && entries.len() > 0 {
        entries.drop_first().push(entry)
    } else {
        entries.push(entry)
    }
}

pub struct StateHistory {
    entries: VecDeque<HistoryEntry>,
    max_size: usize,
    clock: MonotonicClock,
}

impl View for StateHistory {
    type V = Seq<EntryView>;

    /// The remembered entries, oldest first.
    closed spec fn view(&self) -> Seq<EntryView> {
        entry_views(self.entries@)
    }
}

impl StateHistory {
    /// How many entries the history holds at most.
    pub closed spec fn capacity(&self) -> usize {
        self.max_size
    }

    pub fn new(max_size: usize) -> (h: StateHistory)
        ensures
            h@ == Seq::<EntryView>::empty(),
            h.capacity() == max_size,
    {
        let h = StateHistory { entries: VecDeque::new(), max_size, clock: MonotonicClock::new() };
        assert(entry_views(h.entries@) =~= Seq::<EntryView>::empty());
        h
    }

    /// The history's clock, for callers that pass times of their own.
    pub fn now_ms(&self) -> u64 {
        self.clock.now_ms()
    }

    /// Remembers `frame` for `state_id` at time `now_ms`.
    pub fn push_at(&mut self, state_id: u64, frame: FrameData, now_ms: u64)
        ensures
            final(self).capacity() == old(self).capacity(),
            final(self)@ == pushed(old(self)@, old(self).capacity(), entry_at(state_id, frame@, now_ms)),
    {
        let ghost before = self.entries@;
        if self.entries.len() >= self.max_size {
            let _ = self.entries.pop_front();
        }
        let ghost kept = self.entries@;
        self.entries.push_back(HistoryEntry { state_id, frame, timestamp_ms: now_ms });
        proof {
            let entry = EntryView { state_id, frame: frame@, timestamp_ms: now_ms };
            if before.len() >= self.max_size && before.len() > 0 {
                assert(entry_views(kept) =~= entry_views(before).drop_first());
            } else {
                assert(kept == before);
            }
            assert(entry_views(self.entries@) =~= entry_views(kept).push(entry));
        }
    }

    /// Remembers `frame` for `state_id` now, by the history's own clock.
    pub fn push(&mut self, state_id: u64, frame: FrameData)
        ensures
            final(self).capacity() == old(self).capacity(),
            exists|now_ms: u64|
                final(self)@ == pushed(old(self)@, old(self).capacity(), #[trigger] entry_at(state_id, frame@, now_ms)),
    {
        let now_ms = self.clock.now_ms();
        self.push_at(state_id, frame, now_ms);
    }

    /// The first screen remembered for `state_id`.
    pub fn get(&self, state_id: u64) -> (r: Option<&FrameData>)
        ensures
            r.is_some() == lookup(self@, state_id).is_some(),
            r matches Some(f) ==> lookup(self@, state_id) == Some(f@),
    {
        let ghost all = entry_views(self.entries@);
        let mut i: usize = 0;
        assert(all.skip(0) =~= all);
        while i < self.entries.len()
            invariant
                i <= self.entries@.len(),
                all == entry_views(self.entries@),
                position_of(all, state_id) == i + position_of(all.skip(i as int), state_id),
            decreases self.entries@.len() - i,
        {
            let entry = &self.entries[i];
            assert(all.skip(i as int)[0] == entry@);
            if entry.state_id == state_id {
                return Some(&entry.frame);
            }
            assert(all.skip(i as int).drop_first() =~= all.skip(i + 1));
            i += 1;
        }
        None
    }

    pub fn oldest_state_id(&self) -> (r: Option<u64>)
        ensures
            self@.len() == 0 ==> r.is_none(),
            self@.len() > 0 ==> r == Some(self@.first().state_id),
    {
        if self.entries.len() > 0 {
            Some(self.entries[0].state_id)
        } else {
            None
        }
    }

    pub fn newest_state_id(&self) -> (r: Option<u64>)
        ensures
            self@.len() == 0 ==> r.is_none(),
            self@.len() > 0 ==> r == Some(self@.last().state_id),
    {
        let n = self.entries.len();
        if n > 0 {
            Some(self.entries[n - 1].state_id)
        } else {
            None
        }
    }

    /// Whether a client can resume from `state_id`: whether the history
    /// holds a screen for it.
    pub fn can_resume_from(&self, state_id: u64) -> (b: bool)
        ensures
            b == lookup(self@, state_id).is_some(),
    {
        self.get(state_id).is_some()
    }

    /// Drops, from the oldest on, the entries that are older than
    /// `max_age_ms` at `now_ms`, up to the first that is not.
    pub fn prune_older_than_at(&mut self, max_age_ms: u64, now_ms: u64)
        ensures
            final(self).capacity() == old(self).capacity(),
            final(self)@ == old(self)@.skip(stale_count(old(self)@, max_age_ms, now_ms) as int),
    {
        let ghost before = entry_views(self.entries@);
        let ghost mut dropped: int = 0;
        proof {
            assert(before.skip(0) =~= before);
        }
        while self.entries.len() > 0 && now_ms > self.entries[0].timestamp_ms && now_ms
            - self.entries[0].timestamp_ms > max_age_ms
            invariant
                0 <= dropped <= before.len(),
                self.max_size == old(self).max_size,
                entry_views(self.entries@) == before.skip(dropped),
                stale_count(before, max_age_ms, now_ms) == dropped + stale_count(entry_views(self.entries@), max_age_ms, now_ms),
            decreases self.entries@.len(),
        {
            let ghost queue = self.entries@;
            let _ = self.entries.pop_front();
            proof {
                assert(entry_views(self.entries@) =~= entry_views(queue).drop_first());
                assert(entry_views(self.entries@) =~= before.skip(dropped + 1));
                dropped = dropped + 1;
            }
        }
    }

    /// Drops the entries that are older than `max_age_ms` now, by the
    /// history's own clock.
    pub fn prune_older_than(&mut self, max_age_ms: u64)
        ensures
            final(self).capacity() == old(self).capacity(),
            exists|now_ms: u64|
                final(self)@ == old(self)@.skip(#[trigger] stale_count(old(self)@, max_age_ms, now_ms) as int),
    {
        let now_ms = self.clock.now_ms();
        self.prune_older_than_at(max_age_ms, now_ms);
    }

    pub fn len(&self) -> (n: usize)
        ensures
            n == self@.len(),
    {
        self.entries.len()
    }

    pub fn is_empty(&self) -> (b: bool)
        ensures
            b == (self@.len() == 0),
    {
        self.entries.len() == 0
    }

    pub fn clear(&mut self)
        ensures
            final(self)@ == Seq::<EntryView>::empty(),
            final(self).capacity() == old(self).capacity(),
    {
        self.entries.clear();
        assert(entry_views(self.entries@) =~= Seq::<EntryView>::empty());
    }
}

impl Default for StateHistory {
    fn default() -> (h: StateHistory)
        ensures
            h@ == Seq::<EntryView>::empty(),
            h.capacity() == DEFAULT_HISTORY_SIZE,
    {
        StateHistory::new(DEFAULT_HISTORY_SIZE)
    }
}

} // verus!
