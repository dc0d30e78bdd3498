//! The client's side of the screen protocol: a snapshot or a delta written
//! onto the client's copy of the screen, and the proof that what the delta
//! engine sends rebuilds the server's screen.

use vstd::prelude::*;
use crate::delta::{
    base_row, cell_changed, changed_spans, delta_matches, lemma_span_end, patched_rows,
    patches_match, row_data_matches, row_patched, run_matches, runs_match, snapshot_matches,
    span_end, spans_from, spec_encode_cursor,
};
use crate::frame::{blank_row, Cell, Cursor, CursorShape, FrameData, FrameView, Row};
use crate::protocol::{CellRun, CursorState, RowData, RowPatch, ScreenDelta, ScreenSnapshot};

verus! {

/// The `k`-th cell that three parallel arrays carry. Where the width or the
/// style array is too short, the cell is one column wide, or in the default
/// style.
pub open spec fn carried_cell(
    codepoints: Seq<u32>,
    widths: Seq<u32>,
    style_ids: Seq<u32>,
    k: int,
) -> Cell {
    Cell {
        codepoint: codepoints[k],
        width: if k < widths.len() {
            widths[k] as u8
        } else {
            1u8
        },
        style_id: if k < style_ids.len() {
            style_ids[k] as u16
        } else {
            0u16
        },
    }
}

/// `row` after the carried cells were written from column `col_start` on. The
/// row keeps its width: cells that would fall outside are dropped.
pub open spec fn write_cells(
    row: Seq<Cell>,
    col_start: int,
    codepoints: Seq<u32>,
    widths: Seq<u32>,
    style_ids: Seq<u32>,
) -> Seq<Cell> {
    Seq::new(
        row.len(),
        |c: int|
            if col_start <= c < col_start + codepoints.len() {
                carried_cell(codepoints, widths, style_ids, c - col_start)
            } else {
                row[c]
            },
    )
}

/// `row` after one run was written onto it.
pub open spec fn apply_run(row: Seq<Cell>, run: CellRun) -> Seq<Cell> {
    write_cells(row, run.col_start as int, run.codepoints@, run.widths@, run.style_ids@)
}

/// `row` after the runs were written onto it, first to last.
pub open spec fn apply_runs(row: Seq<Cell>, runs: Seq<CellRun>) -> Seq<Cell>
    decreases runs.len(),
{
    if runs.len() == 0 {
        row
    } else {
        apply_run(apply_runs(row, runs.drop_last()), runs.last())
    }
}

/// The screen after one row patch. A patch for a row that the screen does not
/// have is dropped.
pub open spec fn apply_patch(cells: Seq<Seq<Cell>>, patch: RowPatch) -> Seq<Seq<Cell>> {
    if patch.row < cells.len() {
        cells.update(patch.row as int, apply_runs(cells[patch.row as int], patch.runs@))
    } else {
        cells
    }
}

/// The screen after the patches, first to last.
pub open spec fn apply_patches(cells: Seq<Seq<Cell>>, patches: Seq<RowPatch>) -> Seq<Seq<Cell>>
    decreases patches.len(),
{
    if patches.len() == 0 {
        cells
    } else {
        apply_patch(apply_patches(cells, patches.drop_last()), patches.last())
    }
}

/// The screen after one whole row. Row data for a row that the screen does
/// not have is dropped.
pub open spec fn apply_row_data(cells: Seq<Seq<Cell>>, data: RowData) -> Seq<Seq<Cell>> {
    if data.row < cells.len() {
        cells.update(
            data.row as int,
            write_cells(cells[data.row as int], 0, data.codepoints@, data.widths@, data.style_ids@),
        )
    } else {
        cells
    }
}

/// The screen after the whole rows, first to last.
pub open spec fn apply_rows(cells: Seq<Seq<Cell>>, rows: Seq<RowData>) -> Seq<Seq<Cell>>
    decreases rows.len(),
{
    if rows.len() == 0 {
        cells
    } else {
        apply_row_data(apply_rows(cells, rows.drop_last()), rows.last())
    }
}

/// The cursor that a wire cursor stands for. A shape code that names no shape
/// is read as a block.
pub open spec fn spec_decode_cursor(state: CursorState) -> Cursor {
    Cursor {
        row: state.row,
        col: state.col,
        visible: state.visible,
        blink: state.blink,
        shape: if state.shape == 3 {
            CursorShape::Underline
        } else if state.shape == 2 {
            CursorShape::Bar
        } else {
            CursorShape::Block
        },
    }
}

/// The cells of the screen after a snapshot: a blank screen of the
/// snapshot's size (the old cells, where the snapshot names no size) with
/// the snapshot's rows written onto it.
pub open spec fn snapshot_cells(before: Seq<Seq<Cell>>, snapshot: ScreenSnapshot) -> Seq<Seq<Cell>> {
    apply_rows(
        match snapshot.size {
            Some(size) => FrameData::spec_blank(size.cols as nat, size.rows as nat),
            None => before,
        },
        snapshot.rows@,
    )
}

pub fn decode_cursor(state: &CursorState) -> (cursor: Cursor)
    ensures
        cursor == spec_decode_cursor(*state),
{
    Cursor {
        row: state.row,
        col: state.col,
        visible: state.visible,
        blink: state.blink,
        shape: if state.shape == 3 {
            CursorShape::Underline
        } else if state.shape == 2 {
            CursorShape::Bar
        } else {
            CursorShape::Block
        },
    }
}

/// Writes the carried cells onto `row` from column `col_start` on.
fn write_row(
    row: &mut Row,
    col_start: usize,
    codepoints: &Vec<u32>,
    widths: &Vec<u32>,
    style_ids: &Vec<u32>,
)
    ensures
        final(row)@ == write_cells(old(row)@, col_start as int, codepoints@, widths@, style_ids@),
{
    let width = row.cols();
    let mut k: usize = 0;
    assert(row@ =~= Seq::new(
        old(row)@.len(),
        |c: int|
            if col_start <= c < col_start + 0 {
                carried_cell(codepoints@, widths@, style_ids@, c - col_start)
            } else {
                old(row)@[c]
            },
    ));
    while k < codepoints.len() && col_start < width && k < width - col_start
        invariant
            k <= codepoints@.len(),
            width == old(row)@.len(),
            col_start < width ==> k <= width - col_start,
            row@ == Seq::new(
                old(row)@.len(),
                |c: int|
                    if col_start <= c < col_start + k {
                        carried_cell(codepoints@, widths@, style_ids@, c - col_start)
                    } else {
                        old(row)@[c]
                    },
            ),
        decreases codepoints@.len() - k,
    {
        let cell = Cell {
            codepoint: codepoints[k],
            width: if k < widths.len() {
                widths[k] as u8
            } else {
                1
            },
            style_id: if k < style_ids.len() {
                style_ids[k] as u16
            } else {
                0
            },
        };
        let ghost prev = row@;
        row.set_cell(col_start + k, cell);
        k += 1;
        assert(row@ =~= Seq::new(
            old(row)@.len(),
            |c: int|
                if col_start <= c < col_start + k {
                    carried_cell(codepoints@, widths@, style_ids@, c - col_start)
                } else {
                    old(row)@[c]
                },
        ));
    }
    assert(row@ =~= write_cells(old(row)@, col_start as int, codepoints@, widths@, style_ids@));
}

/// Writes a delta onto the client's screen: every patch onto its row, and the
/// cursor where the delta carries one.
pub fn apply_delta(frame: &mut FrameData, delta: &ScreenDelta)
    ensures
        final(frame).cells() == apply_patches(old(frame).cells(), delta.row_patches@),
        final(frame).cols == old(frame).cols,
        final(frame).cursor == (match delta.cursor {
            Some(state) => spec_decode_cursor(state),
            None => old(frame).cursor,
        }),
{
    let mut p: usize = 0;
    assert(delta.row_patches@.subrange(0, 0) =~= Seq::<RowPatch>::empty());
    while p < delta.row_patches.len()
        invariant
            p <= delta.row_patches@.len(),
            frame.cols == old(frame).cols,
            frame.cursor == old(frame).cursor,
            frame.cells() == apply_patches(old(frame).cells(), delta.row_patches@.subrange(0, p as int)),
        decreases delta.row_patches@.len() - p,
    {
        let patch = &delta.row_patches[p];
        let r = patch.row as usize;
        let ghost before = frame.cells();
        if r < frame.rows.len() {
            let ghost row_before = frame.rows@[r as int]@;
            let ghost rows_before = frame.rows@;
            let mut q: usize = 0;
            assert(patch.runs@.subrange(0, 0) =~= Seq::<CellRun>::empty());
            while q < patch.runs.len()
                invariant
                    q <= patch.runs@.len(),
                    r < frame.rows@.len(),
                    frame.rows@.len() == rows_before.len(),
                    frame.cols == old(frame).cols,
                    frame.cursor == old(frame).cursor,
                    forall|j: int| 0 <= j < rows_before.len() && j != r ==> frame.rows@[j] == rows_before[j],
                    frame.rows@[r as int]@ == apply_runs(row_before, patch.runs@.subrange(0, q as int)),
                decreases patch.runs@.len() - q,
            {
                let run = &patch.runs[q];
                write_row(
                    &mut frame.rows[r],
                    run.col_start as usize,
                    &run.codepoints,
                    &run.widths,
                    &run.style_ids,
                );
                q += 1;
                assert(patch.runs@.subrange(0, q as int).drop_last() =~= patch.runs@.subrange(0, q - 1));
            }
            assert(patch.runs@.subrange(0, q as int) =~= patch.runs@);
            assert(frame.cells() =~= apply_patch(before, *patch));
        }
        p += 1;
        assert(delta.row_patches@.subrange(0, p as int).drop_last() =~= delta.row_patches@.subrange(0, p - 1));
    }
    assert(delta.row_patches@.subrange(0, p as int) =~= delta.row_patches@);
    match delta.cursor {
        Some(state) => {
            frame.cursor = decode_cursor(&state);
        },
        None => {},
    }
}

/// Writes a snapshot onto the client's screen. A snapshot that names a size
/// starts from a blank screen of that size; one that names none writes onto
/// the screen as it is.
pub fn apply_snapshot(frame: &mut FrameData, snapshot: &ScreenSnapshot)
    ensures
        final(frame).cells() == snapshot_cells(old(frame).cells(), *snapshot),
        final(frame).cols == (match snapshot.size {
            Some(size) => size.cols as usize,
            None => old(frame).cols,
        }),
        final(frame).cursor == (match snapshot.cursor {
            Some(state) => spec_decode_cursor(state),
            None => old(frame).cursor,
        }),
{
    let ghost start: Seq<Seq<Cell>> = match snapshot.size {
        Some(size) => FrameData::spec_blank(size.cols as nat, size.rows as nat),
        None => frame.cells(),
    };
    let ghost cursor_before = frame.cursor;
    match snapshot.size {
        Some(size) => {
            let blank = FrameData::new(size.cols as usize, size.rows as usize);
            frame.rows = blank.rows;
            frame.cols = size.cols as usize;
        },
        None => {},
    }
    assert(frame.cells() =~= start);
    let mut p: usize = 0;
    assert(snapshot.rows@.subrange(0, 0) =~= Seq::<RowData>::empty());
    while p < snapshot.rows.len()
        invariant
            p <= snapshot.rows@.len(),
            frame.cursor == cursor_before,
            frame.cols == (match snapshot.size {
                Some(size) => size.cols as usize,
                None => old(frame).cols,
            }),
            frame.cells() == apply_rows(start, snapshot.rows@.subrange(0, p as int)),
        decreases snapshot.rows@.len() - p,
    {
        let data = &snapshot.rows[p];
        let r = data.row as usize;
        let ghost before = frame.cells();
        if r < frame.rows.len() {
            write_row(&mut frame.rows[r], 0, &data.codepoints, &data.widths, &data.style_ids);
            assert(frame.cells() =~= apply_row_data(before, *data));
        }
        p += 1;
        assert(snapshot.rows@.subrange(0, p as int).drop_last() =~= snapshot.rows@.subrange(0, p - 1));
    }
    assert(snapshot.rows@.subrange(0, p as int) =~= snapshot.rows@);
    match snapshot.cursor {
        Some(state) => {
            frame.cursor = decode_cursor(&state);
        },
        None => {},
    }
}

/// Whether one of the first `k` spans holds column `c`.
pub open spec fn covered(spans: Seq<(int, int)>, k: int, c: int) -> bool {
    exists|j: int| 0 <= j < k && j < spans.len() && (#[trigger] spans[j]).0 <= c < spans[j].1
}

/// The spans found from column `c0` on lie between `c0` and the row's width,
/// none is empty, and every changed column from `c0` on lies in one of them.
pub proof fn lemma_spans_cover(base: Option<Seq<Cell>>, cur: Seq<Cell>, c0: int)
    requires
        0 <= c0,
    ensures
        forall|k: int|
            0 <= k < spans_from(base, cur, c0).len() ==> c0 <= (#[trigger] spans_from(base, cur, c0)[k]).0
                < spans_from(base, cur, c0)[k].1 <= cur.len(),
        forall|c: int|
            c0 <= c < cur.len() && cell_changed(base, cur, c) ==> covered(
                spans_from(base, cur, c0),
                spans_from(base, cur, c0).len() as int,
                c,
            ),
    decreases cur.len() - c0,
{
    let spans = spans_from(base, cur, c0);
    if c0 >= cur.len() {
        assert(spans.len() == 0);
    } else if !cell_changed(base, cur, c0) {
        lemma_spans_cover(base, cur, c0 + 1);
        let rest = spans_from(base, cur, c0 + 1);
        assert(spans == rest);
        assert forall|k: int| 0 <= k < spans.len() implies c0 <= (#[trigger] spans[k]).0 < spans[k].1
            <= cur.len() by {
            assert(c0 + 1 <= rest[k].0);
        }
        assert forall|c: int| c0 <= c < cur.len() && cell_changed(base, cur, c) implies covered(
            spans,
            spans.len() as int,
            c,
        ) by {
            assert(covered(rest, rest.len() as int, c));
        }
    } else {
        let e = span_end(base, cur, c0);
        lemma_span_end(base, cur, c0);
        lemma_spans_cover(base, cur, e);
        let rest = spans_from(base, cur, e);
        assert(spans == seq![(c0, e)] + rest);
        assert forall|k: int| 0 <= k < spans.len() implies c0 <= (#[trigger] spans[k]).0 < spans[k].1
            <= cur.len() by {
            if k > 0 {
                assert(spans[k] == rest[k - 1]);
            }
        }
        assert forall|c: int| c0 <= c < cur.len() && cell_changed(base, cur, c) implies covered(
            spans,
            spans.len() as int,
            c,
        ) by {
            if c < e {
                assert(spans[0].0 <= c < spans[0].1);
            } else {
                assert(covered(rest, rest.len() as int, c));
                let j = choose|j: int| 0 <= j < rest.len() && (#[trigger] rest[j]).0 <= c < rest[j].1;
                assert(spans[j + 1] == rest[j]);
            }
        }
    }
}

/// After the first `k` runs of a row's patch, every column holds the current
/// cell if one of the first `k` spans holds the column, and the baseline's
/// cell otherwise.
proof fn lemma_runs_prefix(runs: Seq<CellRun>, b: Seq<Cell>, cur: Seq<Cell>, k: int)
    requires
        runs_match(runs, Some(b), cur),
        b.len() == cur.len(),
        cur.len() <= u32::MAX,
        0 <= k <= runs.len(),
    ensures
        apply_runs(b, runs.subrange(0, k)).len() == b.len(),
        forall|c: int|
            0 <= c < b.len() ==> (#[trigger] apply_runs(b, runs.subrange(0, k))[c]) == (if covered(
                changed_spans(Some(b), cur),
                k,
                c,
            ) {
                cur[c]
            } else {
                b[c]
            }),
    decreases k,
{
    let spans = changed_spans(Some(b), cur);
    if k == 0 {
        assert(runs.subrange(0, 0) =~= Seq::<CellRun>::empty());
    } else {
        lemma_runs_prefix(runs, b, cur, k - 1);
        lemma_spans_cover(Some(b), cur, 0);
        let prev = apply_runs(b, runs.subrange(0, k - 1));
        let run = runs[k - 1];
        assert(runs.subrange(0, k).drop_last() =~= runs.subrange(0, k - 1));
        assert(runs.subrange(0, k).last() == run);
        let s = spans[k - 1].0;
        let e = spans[k - 1].1;
        assert(run_matches(run, cur, s, e));
        assert(0 <= s < e <= cur.len());
        let now = apply_runs(b, runs.subrange(0, k));
        assert(now == apply_run(prev, run));
        assert forall|c: int| 0 <= c < b.len() implies (#[trigger] now[c]) == (if covered(spans, k, c) {
            cur[c]
        } else {
            b[c]
        }) by {
            if s <= c < e {
                assert(spans[k - 1].0 <= c < spans[k - 1].1);
                assert(covered(spans, k, c));
                assert(now[c] == cur[c]);
            } else {
                assert(now[c] == prev[c]);
                if covered(spans, k - 1, c) {
                    let j = choose|j: int| 0 <= j < k - 1 && j < spans.len() && (#[trigger] spans[j]).0 <= c < spans[j].1;
                    assert(spans[j].0 <= c < spans[j].1);
                    assert(covered(spans, k, c));
                } else {
                    if covered(spans, k, c) {
                        let j = choose|j: int| 0 <= j < k && j < spans.len() && (#[trigger] spans[j]).0 <= c < spans[j].1;
                        if j < k - 1 {
                            assert(spans[j].0 <= c < spans[j].1);
                            assert(covered(spans, k - 1, c));
                        }
                    }
                }
            }
        }
    }
}

/// The runs of a row's patch, written onto the baseline's row, give the
/// current row.
pub proof fn lemma_runs_rebuild_row(runs: Seq<CellRun>, b: Seq<Cell>, cur: Seq<Cell>)
    requires
        runs_match(runs, Some(b), cur),
        b.len() == cur.len(),
        cur.len() <= u32::MAX,
    ensures
        apply_runs(b, runs) == cur,
{
    lemma_runs_prefix(runs, b, cur, runs.len() as int);
    lemma_spans_cover(Some(b), cur, 0);
    assert(runs.subrange(0, runs.len() as int) =~= runs);
    let spans = changed_spans(Some(b), cur);
    assert forall|c: int| 0 <= c < cur.len() implies apply_runs(b, runs)[c] == cur[c] by {
        if !cell_changed(Some(b), cur, c) {
            assert(b[c] == cur[c]);
        } else {
            assert(covered(spans, spans.len() as int, c));
        }
    }
    assert(apply_runs(b, runs) =~= cur);
}

/// A row of the baseline's width that has no changed span is the baseline's
/// row.
pub proof fn lemma_no_spans_same_row(b: Seq<Cell>, cur: Seq<Cell>)
    requires
        b.len() == cur.len(),
        changed_spans(Some(b), cur).len() == 0,
    ensures
        b == cur,
{
    lemma_spans_cover(Some(b), cur, 0);
    assert forall|c: int| 0 <= c < cur.len() implies b[c] == cur[c] by {
        if cell_changed(Some(b), cur, c) {
            assert(covered(changed_spans(Some(b), cur), 0, c));
        }
    }
    assert(b =~= cur);
}

/// The rows patched below `m` are the first of the rows patched below `n`,
/// and each of them lies below `m`.
pub proof fn lemma_patched_rows_prefix(
    baseline: Seq<Seq<Cell>>,
    current: Seq<Seq<Cell>>,
    dirty: Option<Set<usize>>,
    m: int,
    n: int,
)
    requires
        0 <= m <= n,
    ensures
        patched_rows(baseline, current, dirty, m).len() <= patched_rows(
            baseline,
            current,
            dirty,
            n,
        ).len(),
        patched_rows(baseline, current, dirty, m) == patched_rows(baseline, current, dirty, n).subrange(
            0,
            patched_rows(baseline, current, dirty, m).len() as int,
        ),
        forall|k: int|
            0 <= k < patched_rows(baseline, current, dirty, m).len() ==> 0 <= (#[trigger] patched_rows(
                baseline,
                current,
                dirty,
                m,
            )[k]) < m,
    decreases n,
{
    if m == n {
        assert(patched_rows(baseline, current, dirty, n).subrange(
            0,
            patched_rows(baseline, current, dirty, n).len() as int,
        ) =~= patched_rows(baseline, current, dirty, n));
        if n > 0 {
            lemma_patched_rows_prefix(baseline, current, dirty, n - 1, n - 1);
        }
    } else {
        lemma_patched_rows_prefix(baseline, current, dirty, m, n - 1);
        let pm = patched_rows(baseline, current, dirty, m);
        let pn1 = patched_rows(baseline, current, dirty, n - 1);
        let pn = patched_rows(baseline, current, dirty, n);
        assert(pm =~= pn.subrange(0, pm.len() as int));
    }
}

/// The screen in which the rows below `m` are the current ones and the rows
/// from `m` on the baseline's.
pub open spec fn mixed_rows(baseline: Seq<Seq<Cell>>, current: Seq<Seq<Cell>>, m: int) -> Seq<
    Seq<Cell>,
> {
    Seq::new(baseline.len(), |i: int| if i < m { current[i] } else { baseline[i] })
}

/// Every row that differs from the baseline's is named by the dirty set, where
/// there is one.
pub open spec fn dirty_covers(
    baseline: Seq<Seq<Cell>>,
    current: Seq<Seq<Cell>>,
    dirty: Option<Set<usize>>,
) -> bool {
    match dirty {
        Some(d) => forall|i: int|
            0 <= i < current.len() && i < baseline.len() && #[trigger] baseline[i] != current[i]
                ==> d.contains(i as usize),
        None => true,
    }
}

/// Two screens of one shape: as many rows, and each row as wide as its
/// counterpart, within what the wire's 32-bit fields can name.
pub open spec fn same_shape(baseline: Seq<Seq<Cell>>, current: Seq<Seq<Cell>>) -> bool {
    &&& baseline.len() == current.len()
    &&& current.len() <= u32::MAX
    &&& forall|i: int|
        0 <= i < current.len() ==> (#[trigger] baseline[i]).len() == current[i].len() && current[i].len()
            <= u32::MAX
}

proof fn lemma_patches_prefix(
    patches: Seq<RowPatch>,
    baseline: Seq<Seq<Cell>>,
    current: Seq<Seq<Cell>>,
    dirty: Option<Set<usize>>,
    m: int,
)
    requires
        patches_match(patches, baseline, current, dirty, current.len() as int),
        same_shape(baseline, current),
        dirty_covers(baseline, current, dirty),
        0 <= m <= current.len(),
    ensures
        patched_rows(baseline, current, dirty, m).len() <= patches.len(),
        apply_patches(
            baseline,
            patches.subrange(0, patched_rows(baseline, current, dirty, m).len() as int),
        ) == mixed_rows(baseline, current, m),
    decreases m,
{
    let n = current.len() as int;
    lemma_patched_rows_prefix(baseline, current, dirty, m, n);
    let pm = patched_rows(baseline, current, dirty, m);
    if m == 0 {
        assert(patches.subrange(0, 0) =~= Seq::<RowPatch>::empty());
        assert(mixed_rows(baseline, current, 0) =~= baseline);
    } else {
        lemma_patches_prefix(patches, baseline, current, dirty, m - 1);
        lemma_patched_rows_prefix(baseline, current, dirty, m - 1, n);
        let pm1 = patched_rows(baseline, current, dirty, m - 1);
        let before = mixed_rows(baseline, current, m - 1);
        if row_patched(baseline, current, dirty, m - 1) {
            assert(pm == pm1.push(m - 1));
            let k = pm1.len() as int;
            let patch = patches[k];
            assert(patched_rows(baseline, current, dirty, n)[k] == pm[k]);
            assert(crate::delta::patch_matches(patch, baseline, current, m - 1));
            assert(patches.subrange(0, k + 1).drop_last() =~= patches.subrange(0, k));
            assert(patches.subrange(0, k + 1).last() == patch);
            assert(patch.row == m - 1);
            assert(before[m - 1] == baseline[m - 1]);
            lemma_runs_rebuild_row(patch.runs@, baseline[m - 1], current[m - 1]);
            assert(apply_patch(before, patch) =~= mixed_rows(baseline, current, m));
        } else {
            assert(pm == pm1);
            assert(base_row(baseline, m - 1) == Some(baseline[m - 1]));
            if changed_spans(Some(baseline[m - 1]), current[m - 1]).len() == 0 {
                lemma_no_spans_same_row(baseline[m - 1], current[m - 1]);
            } else {
                assert(baseline[m - 1] == current[m - 1]);
            }
            assert(before =~= mixed_rows(baseline, current, m));
        }
    }
}

/// Reading back what was written: the cursor that the wire carries for a
/// cursor stands for that cursor.
pub proof fn lemma_cursor_roundtrip(cursor: Cursor)
    ensures
        spec_decode_cursor(spec_encode_cursor(cursor)) == cursor,
{
}

/// A delta rebuilds the current screen. Written onto the baseline it was
/// computed from, the delta from `baseline` to `current` gives the cells and
/// the cursor of `current`, provided the two screens have one shape and the
/// dirty set, if one was used, names every row that differs.
pub proof fn lemma_delta_rebuilds_current(
    delta: ScreenDelta,
    baseline: FrameView,
    current: FrameView,
    dirty: Option<Set<usize>>,
    base_state_id: u64,
    current_state_id: u64,
)
    requires
        delta_matches(delta, baseline, current, dirty, base_state_id, current_state_id),
        same_shape(baseline.cells(), current.cells()),
        dirty_covers(baseline.cells(), current.cells(), dirty),
    ensures
        apply_patches(baseline.cells(), delta.row_patches@) == current.cells(),
        (match delta.cursor {
            Some(state) => spec_decode_cursor(state),
            None => baseline.cursor,
        }) == current.cursor,
{
    let b = baseline.cells();
    let c = current.cells();
    let n = c.len() as int;
    lemma_patches_prefix(delta.row_patches@, b, c, dirty, n);
    assert(delta.row_patches@.subrange(0, delta.row_patches@.len() as int) =~= delta.row_patches@);
    assert(mixed_rows(b, c, n) =~= c);
    lemma_cursor_roundtrip(current.cursor);
}

/// The screen after the first `k` whole rows of a snapshot of `cells`: the
/// rows below `k` are there, the others are blank.
proof fn lemma_rows_prefix(rows: Seq<RowData>, cells: Seq<Seq<Cell>>, cols: nat, k: int)
    requires
        rows.len() == cells.len(),
        cells.len() <= u32::MAX,
        cols <= u32::MAX,
        forall|i: int| 0 <= i < cells.len() ==> (#[trigger] cells[i]).len() == cols,
        forall|i: int| 0 <= i < rows.len() ==> row_data_matches(#[trigger] rows[i], cells[i], i),
        0 <= k <= rows.len(),
    ensures
        apply_rows(FrameData::spec_blank(cols, cells.len()), rows.subrange(0, k)) == Seq::new(
            cells.len(),
            |i: int| if i < k { cells[i] } else { blank_row(cols) },
        ),
    decreases k,
{
    let blank = FrameData::spec_blank(cols, cells.len());
    if k == 0 {
        assert(rows.subrange(0, 0) =~= Seq::<RowData>::empty());
        assert(blank =~= Seq::new(cells.len(), |i: int| if i < 0 { cells[i] } else { blank_row(cols) }));
    } else {
        lemma_rows_prefix(rows, cells, cols, k - 1);
        let prev = apply_rows(blank, rows.subrange(0, k - 1));
        let data = rows[k - 1];
        assert(rows.subrange(0, k).drop_last() =~= rows.subrange(0, k - 1));
        assert(rows.subrange(0, k).last() == data);
        assert(row_data_matches(data, cells[k - 1], k - 1));
        let written = write_cells(prev[k - 1], 0, data.codepoints@, data.widths@, data.style_ids@);
        assert(written =~= cells[k - 1]);
        assert(apply_row_data(prev, data) =~= Seq::new(
            cells.len(),
            |i: int| if i < k { cells[i] } else { blank_row(cols) },
        ));
    }
}

/// A snapshot rebuilds the screen. Whatever the client held before, after
/// the snapshot of a well-formed frame it holds the frame's cells and cursor.
pub proof fn lemma_snapshot_rebuilds_frame(
    snapshot: ScreenSnapshot,
    frame: FrameView,
    styles: Seq<crate::protocol::Style>,
    state_id: u64,
    before: Seq<Seq<Cell>>,
)
    requires
        snapshot_matches(snapshot, frame, styles, state_id),
        frame.wf(),
        frame.cols <= u32::MAX,
        frame.rows.len() <= u32::MAX,
    ensures
        snapshot_cells(before, snapshot) == frame.cells(),
        snapshot.cursor matches Some(state) && spec_decode_cursor(state) == frame.cursor,
{
    let cells = frame.cells();
    lemma_rows_prefix(snapshot.rows@, cells, frame.cols as nat, snapshot.rows@.len() as int);
    assert(snapshot.rows@.subrange(0, snapshot.rows@.len() as int) =~= snapshot.rows@);
    assert(Seq::new(
        cells.len(),
        |i: int| if i < snapshot.rows@.len() { cells[i] } else { blank_row(frame.cols as nat) },
    ) =~= cells);
    lemma_cursor_roundtrip(frame.cursor);
}

/// The screen after a sequence of deltas, first to last.
pub open spec fn replay(cells: Seq<Seq<Cell>>, deltas: Seq<ScreenDelta>) -> Seq<Seq<Cell>>
    decreases deltas.len(),
{
    if deltas.len() == 0 {
        cells
    } else {
        apply_patches(replay(cells, deltas.drop_last()), deltas.last().row_patches@)
    }
}

/// The cursor after a sequence of deltas, first to last.
pub open spec fn replay_cursor(cursor: Cursor, deltas: Seq<ScreenDelta>) -> Cursor
    decreases deltas.len(),
{
    if deltas.len() == 0 {
        cursor
    } else {
        match deltas.last().cursor {
            Some(state) => spec_decode_cursor(state),
            None => replay_cursor(cursor, deltas.drop_last()),
        }
    }
}

/// Deltas compose. Take screens of one shape, the snapshot of the first,
/// and for every screen after the first the delta from the screen before it
/// (computed without a dirty set). A client that applies the snapshot and
/// then the deltas in order, whatever it held before, ends with the cells
/// and the cursor of the last screen.
pub proof fn lemma_deltas_compose(
    frames: Seq<FrameView>,
    snapshot: ScreenSnapshot,
    deltas: Seq<ScreenDelta>,
    styles: Seq<crate::protocol::Style>,
    state_ids: Seq<u64>,
    before: Seq<Seq<Cell>>,
)
    requires
        frames.len() >= 1,
        deltas.len() == frames.len() - 1,
        state_ids.len() == frames.len(),
        forall|i: int| 0 <= i < frames.len() ==> (#[trigger] frames[i]).wf(),
        forall|i: int|
            0 <= i < frames.len() ==> (#[trigger] frames[i]).cols == frames[0].cols && frames[i].rows.len()
                == frames[0].rows.len(),
        frames[0].cols <= u32::MAX,
        frames[0].rows.len() <= u32::MAX,
        snapshot_matches(snapshot, frames[0], styles, state_ids[0]),
        forall|i: int|
            0 <= i < deltas.len() ==> delta_matches(
                #[trigger] deltas[i],
                frames[i],
                frames[i + 1],
                None,
                state_ids[i],
                state_ids[i + 1],
            ),
    ensures
        replay(snapshot_cells(before, snapshot), deltas) == frames.last().cells(),
        replay_cursor(spec_decode_cursor(snapshot.cursor.unwrap()), deltas) == frames.last().cursor,
    decreases deltas.len(),
{
    if deltas.len() == 0 {
        lemma_snapshot_rebuilds_frame(snapshot, frames[0], styles, state_ids[0], before);
    } else {
        let n = deltas.len() as int;
        let earlier_frames = frames.drop_last();
        let earlier = deltas.drop_last();
        assert forall|i: int| 0 <= i < earlier.len() implies delta_matches(
            #[trigger] earlier[i],
            earlier_frames[i],
            earlier_frames[i + 1],
            None,
            state_ids.drop_last()[i],
            state_ids.drop_last()[i + 1],
        ) by {
            assert(earlier[i] == deltas[i]);
        }
        assert forall|i: int| 0 <= i < earlier_frames.len() implies (#[trigger] earlier_frames[i]).wf() by {
            assert(earlier_frames[i] == frames[i]);
        }
        assert forall|i: int| 0 <= i < earlier_frames.len() implies (#[trigger] earlier_frames[i]).cols
            == earlier_frames[0].cols && earlier_frames[i].rows.len() == earlier_frames[0].rows.len() by {
            assert(earlier_frames[i] == frames[i]);
        }
        lemma_deltas_compose(earlier_frames, snapshot, earlier, styles, state_ids.drop_last(), before);
        let base = frames[n - 1];
        let current = frames[n];
        assert(earlier_frames.last() == base);
        assert(frames.last() == current);
        assert(delta_matches(deltas[n - 1], base, current, None, state_ids[n - 1], state_ids[n]));
        assert(same_shape(base.cells(), current.cells())) by {
            assert(base.wf() && current.wf());
            assert(base.cols == frames[0].cols && current.cols == frames[0].cols);
            assert forall|i: int| 0 <= i < current.cells().len() implies (#[trigger] base.cells()[i]).len()
                == current.cells()[i].len() && current.cells()[i].len() <= u32::MAX by {
                assert(base.rows[i]@.len() == base.cols);
                assert(current.rows[i]@.len() == current.cols);
            }
        }
        lemma_delta_rebuilds_current(deltas[n - 1], base, current, None, state_ids[n - 1], state_ids[n]);
    }
}

} // verus!
