//! The delta engine: what changed between an acknowledged screen and the
//! current one, as sparse runs of cells, and the whole screen as a snapshot.
//!
//! The engine reads rows only where it has to. Without a dirty set it skips
//! every row that both frames hold in one allocation; such rows are equal, so
//! the result is the same as if every row had been compared cell by cell.

use vstd::prelude::*;
use std::collections::HashSet;
use crate::frame::{Cell, Cursor, CursorShape, FrameData, FrameView, Row};
use crate::protocol::{
    CellRun, CursorState, DisplaySize, RowData, RowPatch, ScreenDelta, ScreenSnapshot, Style,
    StyleDef,
};
use crate::style_table::StyleTable;

verus! {

broadcast use vstd::std_specs::hash::group_hash_axioms;

/// Whether the cell at column `c` of `cur` has to be sent: it has, if there
/// is no baseline row, if the baseline row ends before `c`, or if the
/// baseline holds another cell there.
pub open spec fn cell_changed(base: Option<Seq<Cell>>, cur: Seq<Cell>, c: int) -> bool {
    match base {
        None => true,
        Some(b) => c >= b.len() || b[c] != cur[c],
    }
}

/// The column after the changed span that starts at `c`: the first unchanged
/// column at or after `c`, or the row's width.
pub open spec fn span_end(base: Option<Seq<Cell>>, cur: Seq<Cell>, c: int) -> int
    decreases cur.len() - c,
{
    if 0 <= c < cur.len() && cell_changed(base, cur, c) {
        span_end(base, cur, c + 1)
    } else {
        c
    }
}

/// The maximal spans of changed columns at or after column `c`, left to
/// right, each as its first column and the column after its last.
pub open spec fn spans_from(base: Option<Seq<Cell>>, cur: Seq<Cell>, c: int) -> Seq<(int, int)>
    decreases cur.len() - c,
{
    if c < 0 || c >= cur.len() {
        Seq::empty()
    } else if !cell_changed(base, cur, c) {
        spans_from(base, cur, c + 1)
    } else {
        let e = span_end(base, cur, c);
        if c < e <= cur.len() {
            seq![(c, e)] + spans_from(base, cur, e)
        } else {
            Seq::empty()
        }
    }
}

/// The maximal spans of changed columns of a row.
pub open spec fn changed_spans(base: Option<Seq<Cell>>, cur: Seq<Cell>) -> Seq<(int, int)> {
    spans_from(base, cur, 0)
}

/// The code points of the cells in columns `start` up to `end`.
pub open spec fn codepoints_of(cur: Seq<Cell>, start: int, end: int) -> Seq<u32> {
    Seq::new((end - start) as nat, |k: int| cur[start + k].codepoint)
}

/// The widths of the cells in columns `start` up to `end`.
pub open spec fn widths_of(cur: Seq<Cell>, start: int, end: int) -> Seq<u32> {
    Seq::new((end - start) as nat, |k: int| cur[start + k].width as u32)
}

/// The style ids of the cells in columns `start` up to `end`.
pub open spec fn style_ids_of(cur: Seq<Cell>, start: int, end: int) -> Seq<u32> {
    Seq::new((end - start) as nat, |k: int| cur[start + k].style_id as u32)
}

/// `run` carries exactly the cells of `cur` in columns `start` up to `end`.
pub open spec fn run_matches(run: CellRun, cur: Seq<Cell>, start: int, end: int) -> bool {
    &&& run.col_start == start as u32
    &&& run.codepoints@ == codepoints_of(cur, start, end)
    &&& run.widths@ == widths_of(cur, start, end)
    &&& run.style_ids@ == style_ids_of(cur, start, end)
}

/// `runs` are the changed spans of the row, one run for each, left to right.
pub open spec fn runs_match(runs: Seq<CellRun>, base: Option<Seq<Cell>>, cur: Seq<Cell>) -> bool {
    &&& runs.len() == changed_spans(base, cur).len()
    &&& forall|k: int|
        0 <= k < runs.len() ==> run_matches(
            #[trigger] runs[k],
            cur,
            changed_spans(base, cur)[k].0,
            changed_spans(base, cur)[k].1,
        )
}

/// The baseline's row `i`, if the baseline has one.
pub open spec fn base_row(baseline: Seq<Seq<Cell>>, i: int) -> Option<Seq<Cell>> {
    if 0 <= i < baseline.len() {
        Some(baseline[i])
    } else {
        None
    }
}

/// Whether the delta holds a patch for row `i`: the row is on the current
/// screen, the dirty set (where the caller gave one) names it, and at least
/// one of its cells has to be sent.
pub open spec fn row_patched(
    baseline: Seq<Seq<Cell>>,
    current: Seq<Seq<Cell>>,
    dirty: Option<Set<usize>>,
    i: int,
) -> bool {
    &&& 0 <= i < current.len()
    &&& match dirty {
        Some(d) => d.contains(i as usize),
        None => true,
    }
    &&& changed_spans(base_row(baseline, i), current[i]).len() > 0
}

/// The rows below `n` that get a patch, in ascending order.
pub open spec fn patched_rows(
    baseline: Seq<Seq<Cell>>,
    current: Seq<Seq<Cell>>,
    dirty: Option<Set<usize>>,
    n: int,
) -> Seq<int>
    decreases n,
{
    if n <= 0 {
        Seq::empty()
    } else if row_patched(baseline, current, dirty, n - 1) {
        patched_rows(baseline, current, dirty, n - 1).push(n - 1)
    } else {
        patched_rows(baseline, current, dirty, n - 1)
    }
}

/// `patch` is the patch for row `i`.
pub open spec fn patch_matches(
    patch: RowPatch,
    baseline: Seq<Seq<Cell>>,
    current: Seq<Seq<Cell>>,
    i: int,
) -> bool {
    &&& patch.row == i as u32
    &&& runs_match(patch.runs@, base_row(baseline, i), current[i])
}

/// `patches` are the patches for the rows below `n` that get one, in
/// ascending row order.
pub open spec fn patches_match(
    patches: Seq<RowPatch>,
    baseline: Seq<Seq<Cell>>,
    current: Seq<Seq<Cell>>,
    dirty: Option<Set<usize>>,
    n: int,
) -> bool {
    &&& patches.len() == patched_rows(baseline, current, dirty, n).len()
    &&& forall|k: int|
        0 <= k < patches.len() ==> patch_matches(
            #[trigger] patches[k],
            baseline,
            current,
            patched_rows(baseline, current, dirty, n)[k],
        )
}

/// A cursor as the wire carries it.
pub open spec fn spec_encode_cursor(cursor: Cursor) -> CursorState {
    CursorState {
        row: cursor.row,
        col: cursor.col,
        visible: cursor.visible,
        blink: cursor.blink,
        shape: match cursor.shape {
            CursorShape::Block => 1i32,
            CursorShape::Underline => 3i32,
            CursorShape::Bar => 2i32,
        },
    }
}

/// The cursor that a delta carries: the current one if it differs from the
/// baseline's, none otherwise.
pub open spec fn delta_cursor(baseline: Cursor, current: Cursor) -> Option<CursorState> {
    if baseline != current {
        Some(spec_encode_cursor(current))
    } else {
        None
    }
}

/// `delta` is the delta from `baseline` to `current`. The input watermark
/// that a delta carries is not the engine's to say: the engine leaves it 0,
/// and the session fills it in.
pub open spec fn delta_matches(
    delta: ScreenDelta,
    baseline: FrameView,
    current: FrameView,
    dirty: Option<Set<usize>>,
    base_state_id: u64,
    current_state_id: u64,
) -> bool {
    &&& delta.base_state_id == base_state_id
    &&& delta.state_id == current_state_id
    &&& delta.styles_added@.len() == 0
    &&& delta.cursor == delta_cursor(baseline.cursor, current.cursor)
    &&& patches_match(
        delta.row_patches@,
        baseline.cells(),
        current.cells(),
        dirty,
        current.rows.len() as int,
    )
}

/// `data` is row `i` sent whole.
pub open spec fn row_data_matches(data: RowData, cur: Seq<Cell>, i: int) -> bool {
    &&& data.row == i as u32
    &&& data.codepoints@ == codepoints_of(cur, 0, cur.len() as int)
    &&& data.widths@ == widths_of(cur, 0, cur.len() as int)
    &&& data.style_ids@ == style_ids_of(cur, 0, cur.len() as int)
}

/// `defs` are the styles at positions `from` and above, each with its id.
pub open spec fn style_defs_match(defs: Seq<StyleDef>, styles: Seq<Style>, from: int) -> bool {
    &&& defs.len() == (if from <= styles.len() { styles.len() - from } else { 0 })
    &&& forall|k: int|
        0 <= k < defs.len() ==> (#[trigger] defs[k]) == (StyleDef {
            style_id: (from + k) as u32,
            style: Some(styles[from + k]),
        })
}

/// `snapshot` is the whole of `frame`, with every style of the table.
pub open spec fn snapshot_matches(
    snapshot: ScreenSnapshot,
    frame: FrameView,
    styles: Seq<Style>,
    state_id: u64,
) -> bool {
    &&& snapshot.state_id == state_id
    &&& snapshot.size == Some(
        DisplaySize { cols: frame.cols as u32, rows: frame.rows.len() as u32 },
    )
    &&& snapshot.style_table_reset
    &&& snapshot.cursor == Some(spec_encode_cursor(frame.cursor))
    &&& style_defs_match(snapshot.styles@, styles, 0)
    &&& snapshot.rows@.len() == frame.rows.len()
    &&& forall|i: int|
        0 <= i < snapshot.rows@.len() ==> row_data_matches(
            #[trigger] snapshot.rows@[i],
            frame.rows[i]@,
            i,
        )
}

/// The cells of an optional row.
pub open spec fn opt_cells(row: Option<&Row>) -> Option<Seq<Cell>> {
    match row {
        Some(r) => Some(r@),
        None => None,
    }
}

/// A span that starts at a changed column ends after it, within the row, and
/// every column of it is changed.
pub proof fn lemma_span_end(base: Option<Seq<Cell>>, cur: Seq<Cell>, c: int)
    requires
        0 <= c <= cur.len(),
    ensures
        c <= span_end(base, cur, c) <= cur.len(),
        forall|j: int| c <= j < span_end(base, cur, c) ==> cell_changed(base, cur, j),
        span_end(base, cur, c) < cur.len() ==> !cell_changed(base, cur, span_end(base, cur, c)),
        c < cur.len() && cell_changed(base, cur, c) ==> span_end(base, cur, c) > c,
    decreases cur.len() - c,
{
    if c < cur.len() && cell_changed(base, cur, c) {
        lemma_span_end(base, cur, c + 1);
    }
}

/// A row compared with itself has no changed span.
pub proof fn lemma_same_row_no_spans(cur: Seq<Cell>, c: int)
    requires
        0 <= c,
    ensures
        spans_from(Some(cur), cur, c).len() == 0,
    decreases cur.len() - c,
{
    if c < cur.len() {
        lemma_same_row_no_spans(cur, c + 1);
    }
}

pub struct DeltaEngine;

impl DeltaEngine {
    fn cell_differs(base: Option<&Row>, cur: &Row, c: usize) -> (b: bool)
        requires
            c < cur@.len(),
        ensures
            b == cell_changed(opt_cells(base), cur@, c as int),
    {
        match base {
            None => true,
            Some(b) => {
                if c >= b.cols() {
                    true
                } else {
                    let x: &Cell = &b.0.cells[c];
                    let y: &Cell = &cur.0.cells[c];
                    !(x.codepoint == y.codepoint && x.width == y.width && x.style_id == y.style_id)
                }
            },
        }
    }

    /// The changed spans of one row as runs.
    fn encode_runs(base: Option<&Row>, cur: &Row) -> (runs: Vec<CellRun>)
        ensures
            runs_match(runs@, opt_cells(base), cur@),
    {
        let ghost b = opt_cells(base);
        let ghost total = changed_spans(b, cur@);
        let n = cur.cols();
        let mut runs: Vec<CellRun> = Vec::new();
        let ghost mut done: Seq<(int, int)> = Seq::empty();
        let mut c: usize = 0;
        assert(done + spans_from(b, cur@, 0) =~= total);
        while c < n
            invariant
                c <= n,
                n == cur@.len(),
                b == opt_cells(base),
                total == changed_spans(b, cur@),
                done + spans_from(b, cur@, c as int) == total,
                runs@.len() == done.len(),
                forall|k: int|
                    0 <= k < runs@.len() ==> run_matches(#[trigger] runs@[k], cur@, done[k].0, done[k].1),
            decreases n - c,
        {
            if Self::cell_differs(base, cur, c) {
                let start = c;
                let mut codepoints: Vec<u32> = Vec::new();
                let mut widths: Vec<u32> = Vec::new();
                let mut style_ids: Vec<u32> = Vec::new();
                proof {
                    lemma_span_end(b, cur@, start as int);
                }
                while c < n && Self::cell_differs(base, cur, c)
                    invariant
                        start <= c <= n,
                        n == cur@.len(),
                        b == opt_cells(base),
                        span_end(b, cur@, c as int) == span_end(b, cur@, start as int),
                        codepoints@ == codepoints_of(cur@, start as int, c as int),
                        widths@ == widths_of(cur@, start as int, c as int),
                        style_ids@ == style_ids_of(cur@, start as int, c as int),
                    decreases n - c,
                {
                    let cell: &Cell = &cur.0.cells[c];
                    codepoints.push(cell.codepoint);
                    widths.push(cell.width as u32);
                    style_ids.push(cell.style_id as u32);
                    c += 1;
                    assert(codepoints@ =~= codepoints_of(cur@, start as int, c as int));
                    assert(widths@ =~= widths_of(cur@, start as int, c as int));
                    assert(style_ids@ =~= style_ids_of(cur@, start as int, c as int));
                }
                let ghost e = span_end(b, cur@, start as int);
                assert(e == c);
                let ghost prev = done;
                proof {
                    done = done.push((start as int, e));
                    assert(spans_from(b, cur@, start as int) == seq![(start as int, e)] + spans_from(b, cur@, e));
                    assert(done + spans_from(b, cur@, c as int) =~= prev + spans_from(b, cur@, start as int));
                }
                runs.push(CellRun { col_start: start as u32, codepoints, widths, style_ids });
            } else {
                c += 1;
            }
        }
        assert(done =~= total);
        runs
    }

    /// The patch for one row, if a cell of it has to be sent.
    fn encode_row_patch(row_idx: usize, base: Option<&Row>, cur: &Row) -> (patch: Option<RowPatch>)
        ensures
            patch.is_some() == (changed_spans(opt_cells(base), cur@).len() > 0),
            patch matches Some(p) ==> p.row == row_idx as u32 && runs_match(p.runs@, opt_cells(base), cur@),
    {
        let runs = Self::encode_runs(base, cur);
        if runs.len() > 0 {
            Some(RowPatch { row: row_idx as u32, runs })
        } else {
            None
        }
    }

    /// One row sent whole.
    fn encode_row_data(row_idx: usize, row: &Row) -> (data: RowData)
        ensures
            row_data_matches(data, row@, row_idx as int),
    {
        let n = row.cols();
        let mut codepoints: Vec<u32> = Vec::with_capacity(n);
        let mut widths: Vec<u32> = Vec::with_capacity(n);
        let mut style_ids: Vec<u32> = Vec::with_capacity(n);
        let mut c: usize = 0;
        while c < n
            invariant
                c <= n,
                n == row@.len(),
                codepoints@ == codepoints_of(row@, 0, c as int),
                widths@ == widths_of(row@, 0, c as int),
                style_ids@ == style_ids_of(row@, 0, c as int),
            decreases n - c,
        {
            let cell: &Cell = &row.0.cells[c];
            codepoints.push(cell.codepoint);
            widths.push(cell.width as u32);
            style_ids.push(cell.style_id as u32);
            c += 1;
            assert(codepoints@ =~= codepoints_of(row@, 0, c as int));
            assert(widths@ =~= widths_of(row@, 0, c as int));
            assert(style_ids@ =~= style_ids_of(row@, 0, c as int));
        }
        RowData { row: row_idx as u32, codepoints, widths, style_ids }
    }

    pub fn encode_cursor(cursor: &Cursor) -> (state: CursorState)
        ensures
            state == spec_encode_cursor(*cursor),
    {
        CursorState {
            row: cursor.row,
            col: cursor.col,
            visible: cursor.visible,
            blink: cursor.blink,
            shape: match cursor.shape {
                CursorShape::Block => 1,
                CursorShape::Underline => 3,
                CursorShape::Bar => 2,
            },
        }
    }

    /// The styles of the table from id `from` on, as the wire carries them.
    fn encode_styles(style_table: &StyleTable, from: usize) -> (defs: Vec<StyleDef>)
        ensures
            style_defs_match(defs@, style_table@, from as int),
    {
        let listed = style_table.styles_since(from);
        let mut defs: Vec<StyleDef> = Vec::with_capacity(listed.len());
        let mut k: usize = 0;
        while k < listed.len()
            invariant
                k <= listed@.len(),
                from >= style_table@.len() ==> listed@.len() == 0,
                from < style_table@.len() ==> listed@.len() == style_table@.len() - from,
                forall|j: int|
                    0 <= j < listed@.len() ==> (#[trigger] listed@[j]).0 == from + j && *listed@[j].1 == style_table@[from + j],
                defs@.len() == k,
                forall|j: int|
                    0 <= j < k ==> (#[trigger] defs@[j]) == (StyleDef {
                        style_id: (from + j) as u32,
                        style: Some(style_table@[from + j]),
                    }),
            decreases listed@.len() - k,
        {
            let entry = &listed[k];
            defs.push(StyleDef { style_id: entry.0 as u32, style: Some(*entry.1) });
            k += 1;
        }
        defs
    }

    /// The delta that takes a client from `baseline` to `current`.
    ///
    /// With a dirty set, only the rows it names are looked at. Without one,
    /// every row of the current screen is a candidate unless both frames hold
    /// it in one allocation. Either way a row gets a patch only if a cell of it
    /// has to be sent, and patches come in ascending row order.
    pub fn compute_delta(
        baseline: &FrameData,
        current: &FrameData,
        style_table: &mut StyleTable,
        base_state_id: u64,
        current_state_id: u64,
        dirty_rows: Option<&HashSet<usize>>,
    ) -> (delta: ScreenDelta)
        ensures
            final(style_table)@ == old(style_table)@,
            delta.delivered_input_watermark == 0,
            delta_matches(
                delta,
                baseline@,
                current@,
                match dirty_rows {
                    Some(d) => Some(d@),
                    None => None,
                },
                base_state_id,
                current_state_id,
            ),
    {
        let ghost dirty: Option<Set<usize>> = match dirty_rows {
            Some(d) => Some(d@),
            None => None,
        };
        let ghost bc = baseline.cells();
        let ghost cc = current.cells();
        let style_baseline = style_table.current_count();
        let mut row_patches: Vec<RowPatch> = Vec::new();
        let n = current.rows.len();
        let mut i: usize = 0;
        while i < n
            invariant
                i <= n,
                n == current.rows@.len(),
                bc == baseline.cells(),
                cc == current.cells(),
                dirty == (match dirty_rows {
                    Some(d) => Some(d@),
                    None => None,
                }),
                patches_match(row_patches@, bc, cc, dirty, i as int),
            decreases n - i,
        {
            let base: Option<&Row> = if i < baseline.rows.len() {
                Some(&baseline.rows[i])
            } else {
                None
            };
            let cur: &Row = &current.rows[i];
            assert(opt_cells(base) == base_row(bc, i as int));
            assert(cur@ == cc[i as int]);
            let candidate = match dirty_rows {
                Some(d) => d.contains(&i),
                None => match base {
                    Some(b) => !b.ptr_eq(cur),
                    None => true,
                },
            };
            let ghost before = row_patches@;
            let ghost rows_before = patched_rows(bc, cc, dirty, i as int);
            if candidate {
                match Self::encode_row_patch(i, base, cur) {
                    Some(patch) => {
                        row_patches.push(patch);
                        assert(row_patched(bc, cc, dirty, i as int));
                    },
                    None => {
                        assert(!row_patched(bc, cc, dirty, i as int));
                    },
                }
            } else {
                proof {
                    if dirty.is_none() {
                        lemma_same_row_no_spans(cur@, 0);
                    }
                    assert(!row_patched(bc, cc, dirty, i as int));
                }
            }
            i += 1;
        }
        let styles_added = Self::encode_styles(style_table, style_baseline);
        let cursor = if baseline.cursor != current.cursor {
            Some(Self::encode_cursor(&current.cursor))
        } else {
            None
        };
        ScreenDelta {
            base_state_id,
            state_id: current_state_id,
            styles_added,
            row_patches,
            cursor,
            delivered_input_watermark: 0,
        }
    }

    /// The whole of `frame`: every row with every cell, the size, the cursor,
    /// and every style of the table.
    pub fn compute_snapshot(frame: &FrameData, style_table: &mut StyleTable, state_id: u64) -> (snapshot:
        ScreenSnapshot)
        ensures
            final(style_table)@ == old(style_table)@,
            snapshot.delivered_input_watermark == 0,
            snapshot_matches(snapshot, frame@, old(style_table)@, state_id),
    {
        let n = frame.rows.len();
        let mut rows: Vec<RowData> = Vec::with_capacity(n);
        let mut i: usize = 0;
        while i < n
            invariant
                i <= n,
                n == frame.rows@.len(),
                rows@.len() == i,
                forall|j: int|
                    0 <= j < i ==> row_data_matches(#[trigger] rows@[j], frame.rows@[j]@, j),
            decreases n - i,
        {
            rows.push(Self::encode_row_data(i, &frame.rows[i]));
            i += 1;
        }
        let styles = Self::encode_styles(style_table, 0);
        ScreenSnapshot {
            state_id,
            size: Some(DisplaySize { cols: frame.cols as u32, rows: n as u32 }),
            style_table_reset: true,
            styles,
            rows,
            cursor: Some(Self::encode_cursor(&frame.cursor)),
            delivered_input_watermark: 0,
        }
    }
}

} // verus!
