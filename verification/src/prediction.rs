//! Client-side prediction: keystrokes are drawn at once on top of the
//! confirmed screen and checked against the server when its watermark
//! arrives. A wrong guess throws every pending prediction away; too many
//! wrong guesses switch prediction off.

use vstd::prelude::*;
use std::collections::VecDeque;
use crate::clock::MonotonicClock;
use crate::frame::{Cell, Cursor, FrameData};

verus! {

/// One predicted keystroke: where the cursor will be, and the cells to draw,
/// each with its column and row.
#[derive(Debug)]
pub struct Prediction {
    pub input_seq: u64,
    pub cursor: Cursor,
    pub cells: Vec<(usize, usize, Cell)>,
    pub timestamp_ms: u64,
}

/// A prediction as contracts speak of it.
pub struct PredictionView {
    pub input_seq: u64,
    pub cursor: Cursor,
    pub cells: Seq<(usize, usize, Cell)>,
    pub timestamp_ms: u64,
}

impl View for Prediction {
    type V = PredictionView;

    open spec fn view(&self) -> PredictionView {
        PredictionView {
            input_seq: self.input_seq,
            cursor: self.cursor,
            cells: self.cells@,
            timestamp_ms: self.timestamp_ms,
        }
    }
}

impl Clone for Prediction {
    fn clone(&self) -> (p: Prediction)
        ensures
            p@ == self@,
    {
        let mut cells: Vec<(usize, usize, Cell)> = Vec::with_capacity(self.cells.len());
        let mut i: usize = 0;
        while i < self.cells.len()
            invariant
                i <= self.cells@.len(),
                cells@ == self.cells@.subrange(0, i as int),
            decreases self.cells@.len() - i,
        {
            cells.push(self.cells[i]);
            i += 1;
        }
        assert(cells@ == self.cells@);
        Prediction {
            input_seq: self.input_seq,
            cursor: self.cursor,
            cells,
            timestamp_ms: self.timestamp_ms,
        }
    }
}

/// How sure a local echo of a character is to match the server.
#[derive(Clone, Copy, Debug, PartialEq, Eq, Structural)]
pub enum Confidence {
    High,
    Medium,
    Low,
    /// The character is not predicted at all.
    Unpredictable,
}

#[derive(Clone, Copy, Debug, PartialEq, Eq, Structural)]
pub enum ReconcileResult {
    NoChange,
    Confirmed,
    Misprediction,
}

/// Whether a code point lies in one of the East-Asian Wide ranges.
pub open spec fn is_wide(cp: u32) -> bool {
    ||| 0x1100 <= cp <= 0x115F
    ||| 0x2329 <= cp <= 0x232A
    ||| 0x2E80 <= cp <= 0x303E
    ||| 0x3040 <= cp <= 0xA4CF
    ||| 0xAC00 <= cp <= 0xD7A3
    ||| 0xF900 <= cp <= 0xFAFF
    ||| 0xFE10 <= cp <= 0xFE1F
    ||| 0xFE30 <= cp <= 0xFE6F
    ||| 0xFF00 <= cp <= 0xFF60
    ||| 0xFFE0 <= cp <= 0xFFE6
    ||| 0x20000 <= cp <= 0x2FFFD
    ||| 0x30000 <= cp <= 0x3FFFD
}

/// The columns that a character takes: 2 for an East-Asian Wide one, 1 for
/// any other.
pub open spec fn spec_display_width(cp: u32) -> u8 {
    if is_wide(cp) {
        2u8
    } else {
        1u8
    }
}

/// How sure the echo of a character is, while prediction is on: printable
/// ASCII is sure, control characters are not predicted, the rest is likely.
pub open spec fn spec_confidence(cp: u32) -> Confidence {
    if 0x20 <= cp <= 0x7E {
        Confidence::High
    } else if cp <= 0x1F || cp == 0x7F {
        Confidence::Unpredictable
    } else {
        Confidence::Medium
    }
}

/// The columns that `ch` takes on the screen.
pub fn char_display_width(ch: char) -> (w: u8)
    ensures
        w == spec_display_width(ch as u32),
{
    let cp = ch as u32;
    if cp < 0x80 {
        1
    } else if (0x1100 <= cp && cp <= 0x115F) || (0x2329 <= cp && cp <= 0x232A) || (0x2E80 <= cp && cp
        <= 0x303E) || (0x3040 <= cp && cp <= 0xA4CF) || (0xAC00 <= cp && cp <= 0xD7A3) || (0xF900 <= cp
        && cp <= 0xFAFF) || (0xFE10 <= cp && cp <= 0xFE1F) || (0xFE30 <= cp && cp <= 0xFE6F) || (0xFF00
        <= cp && cp <= 0xFF60) || (0xFFE0 <= cp && cp <= 0xFFE6) || (0x20000 <= cp && cp <= 0x2FFFD) || (
    0x30000 <= cp && cp <= 0x3FFFD) {
        2
    } else {
        1
    }
}

/// The column one to the right, as far as a machine word can name it.
pub open spec fn next_col(col: usize) -> usize {
    if col < usize::MAX {
        (col + 1) as usize
    } else {
        usize::MAX
    }
}

/// The cursor after a character of `width` columns was typed at `cursor` on
/// a screen of `cols` columns: `width` columns to the right, but not past the
/// last column. No wrap to the next line is predicted.
pub open spec fn predicted_cursor(cursor: Cursor, width: u8, cols: usize) -> Cursor {
    let last_col: int = if cols > 0 {
        cols - 1
    } else {
        0
    };
    let target: int = cursor.col + width;
    Cursor {
        col: (if target <= last_col {
            target
        } else {
            last_col
        }) as u32,
        ..cursor
    }
}

/// The cells that the echo of the code point `cp` draws at `cursor`: the
/// character itself in the default style and, for a wide character, the
/// continuation cell to its right.
pub open spec fn predicted_cells(cp: u32, cursor: Cursor) -> Seq<(usize, usize, Cell)> {
    let width = spec_display_width(cp);
    let first = (cursor.col as usize, cursor.row as usize, Cell { codepoint: cp, width, style_id: 0 });
    if width > 1 {
        seq![
            first,
            (
                next_col(cursor.col as usize),
                cursor.row as usize,
                Cell { codepoint: 0, width: 0, style_id: 0 },
            ),
        ]
    } else {
        seq![first]
    }
}

/// The prediction for the code point `cp` typed at `cursor`.
pub open spec fn predicted(cp: u32, input_seq: u64, cursor: Cursor, cols: usize, now_ms: u64)
    -> PredictionView {
    PredictionView {
        input_seq,
        cursor: predicted_cursor(cursor, spec_display_width(cp), cols),
        cells: predicted_cells(cp, cursor),
        timestamp_ms: now_ms,
    }
}

/// How many predictions at the front of the queue the watermark covers.
pub open spec fn confirmed_count(pending: Seq<PredictionView>, watermark: u64) -> nat
    decreases pending.len(),
{
    if pending.len() > 0 && pending[0].input_seq <= watermark {
        1 + confirmed_count(pending.drop_first(), watermark)
    } else {
        0
    }
}

/// `row` with the predicted cells that fall into it, for row number `r`.
pub open spec fn overlay_row(row: Seq<Cell>, r: int, cells: Seq<(usize, usize, Cell)>) -> Seq<Cell>
    decreases cells.len(),
{
    if cells.len() == 0 {
        row
    } else {
        let below = overlay_row(row, r, cells.drop_last());
        let (col, at_row, cell) = cells.last();
        if at_row == r && col < below.len() {
            below.update(col as int, cell)
        } else {
            below
        }
    }
}

/// The screen with the cells of one prediction drawn onto it.
pub open spec fn overlay_cells(screen: Seq<Seq<Cell>>, cells: Seq<(usize, usize, Cell)>) -> Seq<Seq<Cell>> {
    Seq::new(screen.len(), |r: int| overlay_row(screen[r], r, cells))
}

/// The screen with the predictions drawn onto it, first to last.
pub open spec fn overlay_all(screen: Seq<Seq<Cell>>, pending: Seq<PredictionView>) -> Seq<Seq<Cell>>
    decreases pending.len(),
{
    if pending.len() == 0 {
        screen
    } else {
        overlay_cells(overlay_all(screen, pending.drop_last()), pending.last().cells)
    }
}

/// What a prediction engine holds.
pub struct PredictionModel {
    pub pending: Seq<PredictionView>,
    pub last_confirmed_seq: u64,
    pub enabled: bool,
    pub max_pending: usize,
    pub misprediction_count: u32,
    pub misprediction_threshold: u32,
}

impl PredictionModel {
    /// How sure the echo of `cp` is: not at all while prediction is off.
    pub open spec fn confidence(self, cp: u32) -> Confidence {
        if !self.enabled {
            Confidence::Unpredictable
        } else {
            spec_confidence(cp)
        }
    }

    /// Whether a keystroke of `cp` is predicted: prediction is on, the queue
    /// has room, and the character can be predicted.
    pub open spec fn predicts(self, cp: u32) -> bool {
        self.enabled && self.pending.len() < self.max_pending && spec_confidence(cp)
            != Confidence::Unpredictable
    }

    /// The engine after a keystroke.
    pub open spec fn after_predict(self, cp: u32, input_seq: u64, cursor: Cursor, cols: usize, now_ms: u64)
        -> PredictionModel {
        if self.predicts(cp) {
            PredictionModel { pending: self.pending.push(predicted(cp, input_seq, cursor, cols, now_ms)), ..self }
        } else {
            self
        }
    }

    /// What reconciling against the watermark and the server's cursor
    /// answers.
    pub open spec fn reconcile_result(self, watermark: u64, server_cursor: Cursor) -> ReconcileResult {
        let n = confirmed_count(self.pending, watermark);
        if watermark <= self.last_confirmed_seq || n == 0 {
            ReconcileResult::NoChange
        } else if self.pending[n - 1].cursor != server_cursor {
            ReconcileResult::Misprediction
        } else {
            ReconcileResult::Confirmed
        }
    }

    /// The engine after reconciling. A watermark that is not news changes
    /// nothing. Otherwise the watermark is noted and the predictions it covers
    /// leave the queue. If the last of them predicted the very cursor that
    /// the server has, the misprediction count goes down by one; if not, the rest of
    /// the queue goes too, the count goes up, and at the threshold prediction
    /// is switched off.
    pub open spec fn after_reconcile(self, watermark: u64, server_cursor: Cursor) -> PredictionModel {
        let n = confirmed_count(self.pending, watermark);
        if watermark <= self.last_confirmed_seq {
            self
        } else if n == 0 {
            PredictionModel { last_confirmed_seq: watermark, ..self }
        } else if self.pending[n - 1].cursor != server_cursor {
            let count = if self.misprediction_count < u32::MAX {
                (self.misprediction_count + 1) as u32
            } else {
                u32::MAX
            };
            PredictionModel {
                pending: Seq::empty(),
                last_confirmed_seq: watermark,
                misprediction_count: count,
                enabled: self.enabled && count < self.misprediction_threshold,
                ..self
            }
        } else {
            PredictionModel {
                pending: self.pending.skip(n as int),
                last_confirmed_seq: watermark,
                misprediction_count: if self.misprediction_count > 0 {
                    (self.misprediction_count - 1) as u32
                } else {
                    0u32
                },
                ..self
            }
        }
    }

    /// The cursor that the overlay shows: that of the last prediction, or
    /// the confirmed one if nothing is pending.
    pub open spec fn overlay_cursor(self, confirmed: Cursor) -> Cursor {
        if self.pending.len() == 0 {
            confirmed
        } else {
            self.pending.last().cursor
        }
    }
}

/// The views of a queue of predictions.
pub open spec fn views(pending: Seq<Prediction>) -> Seq<PredictionView> {
    Seq::new(pending.len(), |i: int| pending[i]@)
}

pub struct PredictionEngine {
    pending: VecDeque<Prediction>,
    last_confirmed_seq: u64,
    enabled: bool,
    max_pending: usize,
    misprediction_count: u32,
    misprediction_threshold: u32,
    clock: MonotonicClock,
}

impl View for PredictionEngine {
    type V = PredictionModel;

    closed spec fn view(&self) -> PredictionModel {
        PredictionModel {
            pending: views(self.pending@),
            last_confirmed_seq: self.last_confirmed_seq,
            enabled: self.enabled,
            max_pending: self.max_pending,
            misprediction_count: self.misprediction_count,
            misprediction_threshold: self.misprediction_threshold,
        }
    }
}

impl Default for PredictionEngine {
    fn default() -> (e: PredictionEngine)
        ensures
            e@ == (PredictionModel {
                pending: Seq::empty(),
                last_confirmed_seq: 0,
                enabled: true,
                max_pending: 100,
                misprediction_count: 0,
                misprediction_threshold: 5,
            }),
    {
        PredictionEngine::new()
    }
}

impl PredictionEngine {
    /// An engine with room for 100 predictions that gives up after 5 wrong
    /// guesses.
    pub fn new() -> (e: PredictionEngine)
        ensures
            e@ == (PredictionModel {
                pending: Seq::empty(),
                last_confirmed_seq: 0,
                enabled: true,
                max_pending: 100,
                misprediction_count: 0,
                misprediction_threshold: 5,
            }),
    {
        Self::with_limits(100, 5)
    }

    /// An engine with room for `max_pending` predictions that gives up after
    /// `misprediction_threshold` wrong guesses.
    pub fn with_limits(max_pending: usize, misprediction_threshold: u32) -> (e: PredictionEngine)
        ensures
            e@ == (PredictionModel {
                pending: Seq::empty(),
                last_confirmed_seq: 0,
                enabled: true,
                max_pending,
                misprediction_count: 0,
                misprediction_threshold,
            }),
    {
        let e = PredictionEngine {
            pending: VecDeque::new(),
            last_confirmed_seq: 0,
            enabled: true,
            max_pending,
            misprediction_count: 0,
            misprediction_threshold,
            clock: MonotonicClock::new(),
        };
        assert(views(e.pending@) =~= Seq::<PredictionView>::empty());
        e
    }

    /// The engine's clock, for callers that pass times of their own.
    pub fn now_ms(&self) -> u64 {
        self.clock.now_ms()
    }

    /// Predicts the echo of `ch`, typed at `cursor` at time `now_ms` on a
    /// screen of `cols` columns, and queues the prediction. Nothing is
    /// predicted while prediction is off, while the queue is full, or for a
    /// control character.
    pub fn predict_char_at(&mut self, ch: char, input_seq: u64, cursor: &Cursor, cols: usize, now_ms: u64) -> (r:
        Option<Prediction>)
        ensures
            final(self)@ == old(self)@.after_predict(ch as u32, input_seq, *cursor, cols, now_ms),
            r.is_some() == old(self)@.predicts(ch as u32),
            r matches Some(p) ==> p@ == predicted(ch as u32, input_seq, *cursor, cols, now_ms),
    {
        if !self.enabled || self.pending.len() >= self.max_pending {
            return None;
        }
        if self.confidence(ch) == Confidence::Unpredictable {
            return None;
        }
        let width = char_display_width(ch);
        let cell = Cell { codepoint: ch as u32, width, style_id: 0 };
        let last_col: u64 = if cols > 0 {
            (cols - 1) as u64
        } else {
            0
        };
        let target: u64 = cursor.col as u64 + width as u64;
        let new_col: u64 = if target <= last_col {
            target
        } else {
            last_col
        };
        let new_cursor = Cursor {
            row: cursor.row,
            col: #[verifier::truncate] (new_col as u32),
            visible: cursor.visible,
            blink: cursor.blink,
            shape: cursor.shape,
        };
        let mut cells: Vec<(usize, usize, Cell)> = Vec::new();
        cells.push((cursor.col as usize, cursor.row as usize, cell));
        if width > 1 {
            let col = cursor.col as usize;
            let right = if col < usize::MAX {
                col + 1
            } else {
                usize::MAX
            };
            cells.push((right, cursor.row as usize, Cell { codepoint: 0, width: 0, style_id: 0 }));
        }
        assert(cells@ =~= predicted_cells(ch as u32, *cursor));
        let prediction = Prediction { input_seq, cursor: new_cursor, cells, timestamp_ms: now_ms };
        let ghost before = self.pending@;
        self.pending.push_back(prediction.clone());
        assert(views(self.pending@) =~= views(before).push(prediction@));
        Some(prediction)
    }

    /// Predicts the echo of `ch` typed now, by the engine's own clock.
    pub fn predict_char(&mut self, ch: char, input_seq: u64, cursor: &Cursor, cols: usize) -> (r: Option<Prediction>)
        ensures
            r.is_some() == old(self)@.predicts(ch as u32),
            exists|now_ms: u64|
                final(self)@ == #[trigger] old(self)@.after_predict(ch as u32, input_seq, *cursor, cols, now_ms)
                    && (r matches Some(p) ==> p@ == predicted(ch as u32, input_seq, *cursor, cols, now_ms)),
    {
        let now_ms = self.clock.now_ms();
        self.predict_char_at(ch, input_seq, cursor, cols, now_ms)
    }

    /// Writes the cells of one prediction onto the rows of an overlay.
    fn draw(overlay: &mut FrameData, cells: &Vec<(usize, usize, Cell)>)
        ensures
            final(overlay).cells() == overlay_cells(old(overlay).cells(), cells@),
            final(overlay).cols == old(overlay).cols,
            final(overlay).cursor == old(overlay).cursor,
    {
        let ghost start = overlay.cells();
        let mut i: usize = 0;
        assert(overlay.cells() =~= overlay_cells(start, cells@.subrange(0, 0))) by {
            assert(cells@.subrange(0, 0) =~= Seq::<(usize, usize, Cell)>::empty());
        }
        while i < cells.len()
            invariant
                i <= cells@.len(),
                overlay.cols == old(overlay).cols,
                overlay.cursor == old(overlay).cursor,
                start == old(overlay).cells(),
                overlay.cells() == overlay_cells(start, cells@.subrange(0, i as int)),
            decreases cells@.len() - i,
        {
            let entry = cells[i];
            let col = entry.0;
            let row = entry.1;
            let cell = entry.2;
            let ghost before = overlay.cells();
            let ghost rows_before = overlay.rows@;
            assert(before.len() == start.len());
            if row < overlay.rows.len() {
                overlay.rows[row].set_cell(col, cell);
                assert(overlay.rows@.len() == rows_before.len());
                assert(forall|r: int| 0 <= r < rows_before.len() && r != row ==> overlay.rows@[r] == rows_before[r]);
            }
            i += 1;
            proof {
                let done = cells@.subrange(0, i as int);
                assert(done.drop_last() =~= cells@.subrange(0, i - 1));
                assert(done.last() == entry);
                assert(done.len() > 0);
                assert forall|r: int| 0 <= r < start.len() implies overlay.cells()[r] == overlay_row(start[r], r, done) by {
                    let below = overlay_row(start[r], r, done.drop_last());
                    assert(before[r] == below);
                    assert(before[r] == rows_before[r]@);
                    assert(overlay.cells()[r] == overlay.rows@[r]@);
                    if r == row {
                    } else {
                        assert(overlay.rows@[r] == rows_before[r]);
                    }
                }
                assert(overlay.cells() =~= overlay_cells(start, done));
            }
        }
        assert(cells@.subrange(0, i as int) =~= cells@);
    }

    /// The confirmed screen with every pending prediction drawn on top, in
    /// queue order, and the cursor where the last prediction puts it.
    pub fn apply_overlay(&self, base: &FrameData) -> (overlay: FrameData)
        ensures
            overlay.cells() == overlay_all(base.cells(), self@.pending),
            overlay.cols == base.cols,
            overlay.cursor == self@.overlay_cursor(base.cursor),
    {
        let mut overlay = base.clone();
        let mut i: usize = 0;
        let ghost all = views(self.pending@);
        assert(all.subrange(0, 0) =~= Seq::<PredictionView>::empty());
        while i < self.pending.len()
            invariant
                i <= self.pending@.len(),
                all == views(self.pending@),
                overlay.cols == base.cols,
                overlay.cells() == overlay_all(base.cells(), all.subrange(0, i as int)),
                overlay.cursor == (if i == 0 {
                    base.cursor
                } else {
                    all[i - 1].cursor
                }),
            decreases self.pending@.len() - i,
        {
            let pred = &self.pending[i];
            Self::draw(&mut overlay, &pred.cells);
            overlay.cursor = pred.cursor;
            i += 1;
            proof {
                assert(all.subrange(0, i as int).drop_last() =~= all.subrange(0, i - 1));
                assert(all.subrange(0, i as int).last() == pred@);
            }
        }
        assert(all.subrange(0, i as int) =~= all);
        overlay
    }

    /// Checks the pending predictions against the server's watermark and
    /// cursor.
    pub fn reconcile(&mut self, delivered_watermark: u64, server_cursor: &Cursor) -> (result:
        ReconcileResult)
        ensures
            result == old(self)@.reconcile_result(delivered_watermark, *server_cursor),
            final(self)@ == old(self)@.after_reconcile(delivered_watermark, *server_cursor),
    {
        if delivered_watermark <= self.last_confirmed_seq {
            return ReconcileResult::NoChange;
        }
        self.last_confirmed_seq = delivered_watermark;
        let ghost before = views(self.pending@);
        let ghost mut popped: int = 0;
        let mut last_confirmed_cursor: Option<Cursor> = None;
        proof {
            assert(before.skip(0) =~= before);
        }
        while self.pending.len() > 0 && self.pending[0].input_seq <= delivered_watermark
            invariant
                0 <= popped <= before.len(),
                views(self.pending@) == before.skip(popped),
                self.enabled == old(self).enabled,
                self.max_pending == old(self).max_pending,
                self.misprediction_count == old(self).misprediction_count,
                self.misprediction_threshold == old(self).misprediction_threshold,
                self.last_confirmed_seq == delivered_watermark,
                confirmed_count(before, delivered_watermark) == popped + confirmed_count(views(self.pending@), delivered_watermark),
                popped == 0 ==> last_confirmed_cursor.is_none(),
                popped > 0 ==> last_confirmed_cursor == Some(before[popped - 1].cursor),
            decreases self.pending@.len(),
        {
            let ghost queue = self.pending@;
            let pred = self.pending.pop_front().unwrap();
            proof {
                assert(views(self.pending@) =~= views(queue).drop_first());
                assert(views(self.pending@) =~= before.skip(popped + 1));
                assert(before[popped] == pred@);
            }
            last_confirmed_cursor = Some(pred.cursor);
            proof {
                popped = popped + 1;
            }
        }
        match last_confirmed_cursor {
            None => ReconcileResult::NoChange,
            Some(confirmed_cursor) => {
                if confirmed_cursor != *server_cursor {
                    if self.misprediction_count < u32::MAX {
                        self.misprediction_count += 1;
                    }
                    self.pending.clear();
                    if self.misprediction_count >= self.misprediction_threshold {
                        self.enabled = false;
                    }
                    assert(views(self.pending@) =~= Seq::<PredictionView>::empty());
                    ReconcileResult::Misprediction
                } else {
                    if self.misprediction_count > 0 {
                        self.misprediction_count -= 1;
                    }
                    ReconcileResult::Confirmed
                }
            },
        }
    }

    /// How sure the echo of `ch` is.
    pub fn confidence(&self, ch: char) -> (c: Confidence)
        ensures
            c == self@.confidence(ch as u32),
    {
        if !self.enabled {
            return Confidence::Unpredictable;
        }
        let cp = ch as u32;
        if 0x20 <= cp && cp <= 0x7E {
            Confidence::High
        } else if cp <= 0x1F || cp == 0x7F {
            Confidence::Unpredictable
        } else {
            Confidence::Medium
        }
    }

    pub fn is_enabled(&self) -> (b: bool)
        ensures
            b == self@.enabled,
    {
        self.enabled
    }

    /// Switches prediction off and drops what is pending.
    pub fn disable(&mut self)
        ensures
            final(self)@ == (PredictionModel { enabled: false, pending: Seq::empty(), ..old(self)@ }),
    {
        self.enabled = false;
        self.pending.clear();
        assert(views(self.pending@) =~= Seq::<PredictionView>::empty());
    }

    /// Switches prediction on and forgives earlier wrong guesses.
    pub fn enable(&mut self)
        ensures
            final(self)@ == (PredictionModel { enabled: true, misprediction_count: 0, ..old(self)@ }),
    {
        self.enabled = true;
        self.misprediction_count = 0;
    }

    pub fn pending_count(&self) -> (n: usize)
        ensures
            n == self@.pending.len(),
    {
        self.pending.len()
    }

    pub fn last_confirmed_seq(&self) -> (seq: u64)
        ensures
            seq == self@.last_confirmed_seq,
    {
        self.last_confirmed_seq
    }

    pub fn misprediction_count(&self) -> (n: u32)
        ensures
            n == self@.misprediction_count,
    {
        self.misprediction_count
    }

    /// Drops what is pending.
    pub fn clear(&mut self)
        ensures
            final(self)@ == (PredictionModel { pending: Seq::empty(), ..old(self)@ }),
    {
        self.pending.clear();
        assert(views(self.pending@) =~= Seq::<PredictionView>::empty());
    }

    /// The pending predictions, oldest first.
    pub fn pending_predictions(&self) -> (list: Vec<Prediction>)
        ensures
            views(list@) == self@.pending,
    {
        let mut list: Vec<Prediction> = Vec::with_capacity(self.pending.len());
        let mut i: usize = 0;
        while i < self.pending.len()
            invariant
                i <= self.pending@.len(),
                list@.len() == i,
                forall|j: int| 0 <= j < i ==> (#[trigger] list@[j])@ == self.pending@[j]@,
            decreases self.pending@.len() - i,
        {
            list.push(self.pending[i].clone());
            i += 1;
        }
        assert(views(list@) =~= views(self.pending@));
        list
    }
}

/// The predictions' sequence numbers rise strictly along the queue.
pub open spec fn rising(pending: Seq<PredictionView>) -> bool {
    forall|i: int, j: int| 0 <= i < j < pending.len() ==> pending[i].input_seq < pending[j].input_seq
}

/// In a queue whose sequence numbers rise, the watermark covers exactly the
/// predictions with a sequence number up to it: those are the first ones of
/// the queue, and every prediction behind them is above the watermark.
pub proof fn lemma_confirmed_exactly(pending: Seq<PredictionView>, watermark: u64)
    requires
        rising(pending),
    ensures
        confirmed_count(pending, watermark) <= pending.len(),
        forall|i: int|
            0 <= i < pending.len() ==> ((#[trigger] pending[i]).input_seq <= watermark <==> i
                < confirmed_count(pending, watermark)),
    decreases pending.len(),
{
    if pending.len() > 0 && pending[0].input_seq <= watermark {
        let rest = pending.drop_first();
        assert(rising(rest)) by {
            assert forall|i: int, j: int| 0 <= i < j < rest.len() implies rest[i].input_seq < rest[j].input_seq by {
                assert(rest[i] == pending[i + 1]);
                assert(rest[j] == pending[j + 1]);
            }
        }
        lemma_confirmed_exactly(rest, watermark);
        assert forall|i: int| 0 <= i < pending.len() implies ((#[trigger] pending[i]).input_seq <= watermark
            <==> i < confirmed_count(pending, watermark)) by {
            if i > 0 {
                assert(rest[i - 1] == pending[i]);
            }
        }
    } else if pending.len() > 0 {
        assert forall|i: int| 0 <= i < pending.len() implies !((#[trigger] pending[i]).input_seq <= watermark) by {
            if i > 0 {
                assert(pending[0].input_seq < pending[i].input_seq);
            }
        }
    }
}

/// Reconciling a queue whose sequence numbers rise, against a watermark that
/// is news and covers something: exactly the predictions up to the watermark
/// leave. If the last of them predicted the very cursor that the server has,
/// the answer is Confirmed and the others stay; if the two cursors differ in
/// anything, the answer is Misprediction, the queue is empty, the count of
/// wrong guesses goes up by one, and prediction stays on only below the
/// threshold.
pub proof fn lemma_reconcile(m: PredictionModel, watermark: u64, server_cursor: Cursor)
    requires
        rising(m.pending),
        watermark > m.last_confirmed_seq,
        confirmed_count(m.pending, watermark) > 0,
    ensures
        ({
            let n = confirmed_count(m.pending, watermark) as int;
            let after = m.after_reconcile(watermark, server_cursor);
            let result = m.reconcile_result(watermark, server_cursor);
            &&& n <= m.pending.len()
            &&& forall|i: int| 0 <= i < m.pending.len() ==> ((#[trigger] m.pending[i]).input_seq <= watermark <==> i < n)
            &&& m.pending[n - 1].cursor == server_cursor ==> result
                == ReconcileResult::Confirmed && after.pending == m.pending.skip(n) && after.pending.len()
                < m.pending.len()
            &&& m.pending[n - 1].cursor != server_cursor ==> {
                &&& result == ReconcileResult::Misprediction
                &&& after.pending.len() == 0
                &&& m.misprediction_count < u32::MAX ==> after.misprediction_count == m.misprediction_count + 1
                &&& after.enabled == (m.enabled && after.misprediction_count < m.misprediction_threshold)
            }
            &&& after.last_confirmed_seq == watermark
        }),
{
    lemma_confirmed_exactly(m.pending, watermark);
}

} // verus!
