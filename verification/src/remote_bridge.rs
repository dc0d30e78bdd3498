//! From a pane's grid to a frame store.

use vstd::prelude::*;
use std::collections::HashMap;
use crate::frame::{blank_row, widened, Cell, Cursor, CursorShape, FrameStore, RowData};
use crate::output_convert::continuation;
use crate::protocol::Style;
use crate::style_convert::{get_cached_style_id, spec_style};
use crate::style_table::StyleTable;
use crate::terminal::{Grid, GridCursorShape, GridRow, TerminalCharacter};

verus! {

broadcast use vstd::std_specs::hash::group_hash_axioms;

/// The cells that a character takes in a row that holds `taken` cells
/// already and `cols` at most: its own cell, then continuation cells up to
/// its width or the row's end.
pub open spec fn char_cells(tc: TerminalCharacter, style_id: u16, taken: int, cols: int) -> Seq<Cell> {
    let room = cols - taken - 1;
    let wanted = tc.width - 1;
    let extra = if wanted < 0 || room < 0 {
        0
    } else if wanted < room {
        wanted
    } else {
        room
    };
    seq![Cell { codepoint: tc.character as u32, width: tc.width, style_id }] + Seq::new(
        extra as nat,
        |k: int| continuation(style_id),
    )
}

/// The cells of a grid row on a screen of `cols` columns, from the `i`-th
/// character on, after `cells`; and the styles interned on the way. The row
/// is cut at the screen's width and padded with blanks up to it.
pub open spec fn row_built(
    styles: Seq<Style>,
    columns: Seq<TerminalCharacter>,
    i: int,
    cells: Seq<Cell>,
    cols: int,
) -> (Seq<Cell>, Seq<Style>)
    decreases columns.len() - i,
{
    if i < 0 || i >= columns.len() || cells.len() >= cols {
        (widened(cells, cols as nat), styles)
    } else {
        let (next_styles, style_id) = StyleTable::spec_get_or_insert(styles, spec_style(columns[i].styles@));
        row_built(next_styles, columns, i + 1, cells + char_cells(columns[i], style_id, cells.len() as int, cols), cols)
    }
}

/// The rows of the first `n` grid rows, and the styles interned on the way.
pub open spec fn rows_built(styles: Seq<Style>, viewport: Seq<GridRow>, n: int, cols: int) -> (
    Seq<Seq<Cell>>,
    Seq<Style>,
)
    decreases n,
{
    if n <= 0 {
        (Seq::empty(), styles)
    } else {
        let (rows, before) = rows_built(styles, viewport, n - 1, cols);
        let (row, after) = row_built(before, viewport[n - 1].columns@, 0, Seq::empty(), cols);
        (rows.push(row), after)
    }
}

/// The protocol's cursor shape for the multiplexer's, and whether it
/// blinks.
pub open spec fn spec_cursor_shape(shape: GridCursorShape) -> (CursorShape, bool) {
    match shape {
        GridCursorShape::Initial => (CursorShape::Block, false),
        GridCursorShape::Block => (CursorShape::Block, false),
        GridCursorShape::BlinkingBlock => (CursorShape::Block, true),
        GridCursorShape::Underline => (CursorShape::Underline, false),
        GridCursorShape::BlinkingUnderline => (CursorShape::Underline, true),
        GridCursorShape::Beam => (CursorShape::Bar, false),
        GridCursorShape::BlinkingBeam => (CursorShape::Bar, true),
    }
}

/// `x`, but not beyond the last of `n` places.
pub open spec fn clamped(x: usize, n: usize) -> usize {
    let last: usize = if n > 0 {
        (n - 1) as usize
    } else {
        0
    };
    if x < last {
        x
    } else {
        last
    }
}

/// The cursor of a frame for a cursor at column `x` and row `y`: held
/// within the screen, and visible only on a screen that has cells.
pub open spec fn spec_viewport_cursor(
    x: usize,
    y: usize,
    shape: CursorShape,
    blink: bool,
    visible: bool,
    cols: usize,
    rows: usize,
) -> Cursor {
    Cursor {
        row: clamped(y, rows) as u32,
        col: clamped(x, cols) as u32,
        visible: visible && rows > 0 && cols > 0,
        blink,
        shape,
    }
}

/// The cursor of a frame for a grid: the grid's cursor where it has one, a
/// hidden block in the corner where it has none.
pub open spec fn spec_grid_cursor(grid: Grid) -> Cursor {
    match grid.cursor {
        Some((x, y)) => spec_viewport_cursor(
            x,
            y,
            spec_cursor_shape(grid.cursor_shape).0,
            spec_cursor_shape(grid.cursor_shape).1,
            !grid.cursor_hidden,
            grid.width,
            grid.height,
        ),
        None => Cursor { row: 0, col: 0, visible: false, blink: false, shape: CursorShape::Block },
    }
}

/// `store` holds the first rows of `viewport`, as many as it has a place
/// for, built with the styles interned from `before` to `after`; its other
/// rows are blank.
pub open spec fn store_holds(
    store: FrameStore,
    viewport: Seq<GridRow>,
    cols: usize,
    rows: usize,
    before: Seq<Style>,
    after: Seq<Style>,
) -> bool {
    let n: int = if viewport.len() < rows {
        viewport.len() as int
    } else {
        rows as int
    };
    &&& store.frame().cols == cols
    &&& store.frame().rows@.len() == rows
    &&& store.frame().wf()
    &&& after == rows_built(before, viewport, n, cols as int).1
    &&& forall|i: int|
        0 <= i < rows ==> (#[trigger] store.frame().rows@[i])@ == (if i < n {
            rows_built(before, viewport, n, cols as int).0[i]
        } else {
            blank_row(cols as nat)
        })
    &&& store.dirty() == Set::new(|i: usize| i < n)
}

/// Setting the cursor and moving to the next state leaves what the store
/// holds of a viewport as it is.
proof fn lemma_still_holds(
    before: FrameStore,
    after: FrameStore,
    viewport: Seq<GridRow>,
    cols: usize,
    rows: usize,
    styles_before: Seq<Style>,
    styles_after: Seq<Style>,
)
    requires
        store_holds(before, viewport, cols, rows, styles_before, styles_after),
        after.frame().rows@ == before.frame().rows@,
        after.frame().cols == before.frame().cols,
        after.dirty() == before.dirty(),
    ensures
        store_holds(after, viewport, cols, rows, styles_before, styles_after),
{
    assert forall|i: int| 0 <= i < after.frame()@.rows.len() implies (#[trigger] after.frame()@.rows[i])@.len()
        == after.frame().cols by {
        assert(before.frame()@.rows[i]@.len() == cols);
    }
}

pub fn terminal_character_to_cell(tc: &TerminalCharacter, style_table: &mut StyleTable) -> (cell: Cell)
    ensures
        final(style_table).wf(),
        (final(style_table)@, cell.style_id) == StyleTable::spec_get_or_insert(
            old(style_table)@,
            spec_style(tc.styles@),
        ),
        cell.codepoint == tc.character as u32,
        cell.width == tc.width,
{
    crate::style_convert::terminal_character_to_cell(tc, style_table)
}

/// The cells of one grid row on a screen of `cols` columns.
pub fn row_to_frame_row(
    zellij_row: &GridRow,
    cols: usize,
    style_table: &mut StyleTable,
    style_cache: &mut HashMap<usize, u16>,
) -> (row: RowData)
    ensures
        final(style_table).wf(),
        (row.cells@, final(style_table)@) == row_built(
            old(style_table)@,
            zellij_row.columns@,
            0,
            Seq::empty(),
            cols as int,
        ),
        row.cells@.len() == cols,
{
    let mut cells: Vec<Cell> = Vec::new();
    let mut col: usize = 0;
    let mut i: usize = 0;
    let n = zellij_row.columns.len();
    let _ = style_table.current_count();
    let ghost goal = row_built(style_table@, zellij_row.columns@, 0, Seq::empty(), cols as int);
    while i < n && col < cols
        invariant
            i <= n,
            n == zellij_row.columns@.len(),
            col == cells@.len(),
            col <= cols,
            style_table.wf(),
            goal == row_built(style_table@, zellij_row.columns@, i as int, cells@, cols as int),
        decreases n - i,
    {
        let tc = &zellij_row.columns[i];
        let width = tc.width();
        let ghost styles_before = style_table@;
        let ghost cells_before = cells@;
        let style_id = get_cached_style_id(&tc.styles, style_table, style_cache);
        cells.push(Cell { codepoint: tc.character as u32, width: tc.width, style_id });
        col += 1;
        let mut k: usize = 1;
        assert(cells@ =~= cells_before + seq![Cell { codepoint: tc.character as u32, width: tc.width, style_id }]
            + Seq::new(0nat, |j: int| continuation(style_id)));
        while k < width && col < cols
            invariant
                1 <= k,
                k <= width || k == 1,
                width == tc.width,
                cells_before.len() < cols,
                col == cells@.len(),
                col <= cols,
                col == cells_before.len() + k,
                cells@ == cells_before + seq![Cell { codepoint: tc.character as u32, width: tc.width, style_id }]
                    + Seq::new((k - 1) as nat, |j: int| continuation(style_id)),
            decreases width - k,
        {
            cells.push(Cell { codepoint: 0, width: 0, style_id });
            col += 1;
            k += 1;
            assert(cells@ =~= cells_before + seq![Cell { codepoint: tc.character as u32, width: tc.width, style_id }]
                + Seq::new((k - 1) as nat, |j: int| continuation(style_id)));
        }
        assert(cells@ =~= cells_before + char_cells(*tc, style_id, cells_before.len() as int, cols as int));
        i += 1;
    }
    let ghost built = cells@;
    assert(cells@ =~= widened(built, col as nat));
    while col < cols
        invariant
            col == cells@.len(),
            col <= cols,
            built.len() <= col,
            cells@ == widened(built, col as nat),
        decreases cols - col,
    {
        cells.push(Cell::default());
        col += 1;
        assert(cells@ =~= widened(built, col as nat));
    }
    assert(cells@ =~= widened(built, cols as nat));
    RowData { cells }
}

pub fn zellij_cursor_shape_to_zrp(shape: &GridCursorShape) -> (r: (CursorShape, bool))
    ensures
        r == spec_cursor_shape(*shape),
{
    match shape {
        GridCursorShape::Initial => (CursorShape::Block, false),
        GridCursorShape::Block => (CursorShape::Block, false),
        GridCursorShape::BlinkingBlock => (CursorShape::Block, true),
        GridCursorShape::Underline => (CursorShape::Underline, false),
        GridCursorShape::BlinkingUnderline => (CursorShape::Underline, true),
        GridCursorShape::Beam => (CursorShape::Bar, false),
        GridCursorShape::BlinkingBeam => (CursorShape::Bar, true),
    }
}

fn clamp(x: usize, n: usize) -> (r: usize)
    ensures
        r == clamped(x, n),
{
    let last = if n > 0 {
        n - 1
    } else {
        0
    };
    if x < last {
        x
    } else {
        last
    }
}

/// A store at state 0 that holds the rows of a viewport.
fn rows_to_store(viewport: &[GridRow], cols: usize, rows: usize, style_table: &mut StyleTable) -> (store:
    FrameStore)
    ensures
        final(style_table).wf(),
        store.state() == 0,
        store.frame().cursor == Cursor::home(),
        store_holds(store, viewport@, cols, rows, old(style_table)@, final(style_table)@),
{
    let mut store = FrameStore::new(cols, rows);
    let mut style_cache: HashMap<usize, u16> = HashMap::new();
    let _ = style_table.current_count();
    let n = if viewport.len() < rows {
        viewport.len()
    } else {
        rows
    };
    let mut row_idx: usize = 0;
    assert(store.dirty() =~= Set::new(|i: usize| i < 0));
    assert forall|i: int| 0 <= i < rows implies (#[trigger] store.frame().rows@[i])@ == blank_row(cols as nat) by {
        assert(store.frame().cells()[i] == blank_row(cols as nat));
    }
    while row_idx < n
        invariant
            row_idx <= n,
            n <= rows,
            n <= viewport@.len(),
            style_table.wf(),
            store.state() == 0,
            store.frame().cursor == Cursor::home(),
            store.frame().cols == cols,
            store.frame().rows@.len() == rows,
            store.frame().wf(),
            style_table@ == rows_built(old(style_table)@, viewport@, row_idx as int, cols as int).1,
            forall|i: int|
                0 <= i < rows ==> (#[trigger] store.frame().rows@[i])@ == (if i < row_idx {
                    rows_built(old(style_table)@, viewport@, row_idx as int, cols as int).0[i]
                } else {
                    blank_row(cols as nat)
                }),
            rows_built(old(style_table)@, viewport@, row_idx as int, cols as int).0.len() == row_idx,
            store.dirty() == Set::new(|i: usize| i < row_idx),
        decreases n - row_idx,
    {
        let ghost built_before = rows_built(old(style_table)@, viewport@, row_idx as int, cols as int).0;
        let row_data = row_to_frame_row(&viewport[row_idx], cols, style_table, &mut style_cache);
        let ghost rows_before = store.frame().rows@;
        let ghost frame_before = store.frame()@;
        store.set_row(row_idx, row_data);
        proof {
            assert forall|i: int| 0 <= i < rows implies (#[trigger] store.frame()@.rows[i])@.len() == cols by {
                if i != row_idx {
                    assert(store.frame().rows@[i] == rows_before[i]);
                    assert(frame_before.rows[i]@.len() == cols);
                }
            }
            assert(store.frame().wf());
            assert forall|i: int| 0 <= i < rows && i != row_idx implies store.frame().rows@[i]@ == rows_before[i]@ by {
                assert(store.frame().rows@[i] == rows_before[i]);
            }
            let built = rows_built(old(style_table)@, viewport@, row_idx + 1, cols as int).0;
            assert(built == built_before.push(row_data.cells@));
            assert forall|i: int| 0 <= i < rows implies (#[trigger] store.frame().rows@[i])@ == (if i < row_idx + 1 {
                built[i]
            } else {
                blank_row(cols as nat)
            }) by {
                if i < row_idx {
                    assert(built[i] == built_before[i]);
                }
            }
            assert(store.dirty() =~= Set::new(|i: usize| i < row_idx + 1));
        }
        row_idx += 1;
    }
    store
}

/// A frame store for a pane's grid, at state 1: the rows in view, cut and
/// padded to the grid's size, and the cursor.
pub fn grid_to_frame_store(grid: &Grid, style_table: &mut StyleTable) -> (store: FrameStore)
    ensures
        final(style_table).wf(),
        store.state() == 1,
        store.frame().cursor == spec_grid_cursor(*grid),
        store_holds(store, grid.viewport@, grid.width, grid.height, old(style_table)@, final(style_table)@),
{
    let cols = grid.width;
    let rows = grid.height;
    let mut store = rows_to_store(grid.viewport.as_slice(), cols, rows, style_table);
    let shape_and_blink = zellij_cursor_shape_to_zrp(&grid.cursor_shape());
    let cursor = match grid.cursor_coordinates() {
        Some(at) => Cursor {
            row: #[verifier::truncate] (clamp(at.1, rows) as u32),
            col: #[verifier::truncate] (clamp(at.0, cols) as u32),
            visible: !grid.cursor_is_hidden() && rows > 0 && cols > 0,
            blink: shape_and_blink.1,
            shape: shape_and_blink.0,
        },
        None => Cursor { row: 0, col: 0, visible: false, blink: false, shape: CursorShape::Block },
    };
    let ghost held = store;
    store.set_cursor(cursor);
    store.advance_state();
    proof {
        lemma_still_holds(held, store, grid.viewport@, cols, rows, old(style_table)@, style_table@);
    }
    store
}

/// A frame store for the rows of a viewport and a cursor, at state 1.
pub fn viewport_to_frame_store(
    viewport: &[GridRow],
    cursor_x: usize,
    cursor_y: usize,
    cursor_shape: CursorShape,
    cursor_blink: bool,
    cursor_visible: bool,
    cols: usize,
    rows: usize,
    style_table: &mut StyleTable,
) -> (store: FrameStore)
    ensures
        final(style_table).wf(),
        store.state() == 1,
        store.frame().cursor == spec_viewport_cursor(
            cursor_x,
            cursor_y,
            cursor_shape,
            cursor_blink,
            cursor_visible,
            cols,
            rows,
        ),
        store_holds(store, viewport@, cols, rows, old(style_table)@, final(style_table)@),
{
    let mut store = rows_to_store(viewport, cols, rows, style_table);
    let ghost held = store;
    store.set_cursor(
        Cursor {
            row: #[verifier::truncate] (clamp(cursor_y, rows) as u32),
            col: #[verifier::truncate] (clamp(cursor_x, cols) as u32),
            visible: cursor_visible && rows > 0 && cols > 0,
            blink: cursor_blink,
            shape: cursor_shape,
        },
    );
    store.advance_state();
    proof {
        lemma_still_holds(held, store, viewport@, cols, rows, old(style_table)@, style_table@);
    }
    store
}

} // verus!
