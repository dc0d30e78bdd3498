//! The copy-on-write screen model.
//!
//! A row is a shared, immutable sequence of cells. Writing to a row that is
//! shared gives the writer a fresh copy, so a row that nobody wrote to is
//! held by the same allocation in every frame that contains it. Two rows held
//! by the same allocation are equal cell by cell; the engine that computes
//! deltas uses that to skip rows without reading them.

use vstd::prelude::*;
use std::collections::HashSet;
use std::sync::Arc;

verus! {

broadcast use vstd::std_specs::hash::group_hash_axioms;

/// One character cell. A width of 0 marks the second column of a wide
/// character.
#[derive(Debug, Clone, Copy, PartialEq, Eq, Structural)]
pub struct Cell {
    pub codepoint: u32,
    pub width: u8,
    pub style_id: u16,
}

impl Cell {
    /// A space of width 1 in the default style.
    pub open spec fn blank() -> Cell {
        Cell { codepoint: 0x20u32, width: 1u8, style_id: 0u16 }
    }
}

impl Default for Cell {
    fn default() -> (c: Cell)
        ensures
            c == Cell::blank(),
    {
        Cell { codepoint: 0x20, width: 1, style_id: 0 }
    }
}

/// A row of `cols` blank cells.
pub open spec fn blank_row(cols: nat) -> Seq<Cell> {
    Seq::new(cols, |i: int| Cell::blank())
}

/// The cells of one row.
#[derive(Debug, PartialEq)]
pub struct RowData {
    pub cells: Vec<Cell>,
}

impl Clone for RowData {
    fn clone(&self) -> (r: RowData)
        ensures
            r.cells@ == self.cells@,
    {
        let mut cells: Vec<Cell> = Vec::with_capacity(self.cells.len());
        let mut i: usize = 0;
        while i < self.cells.len()
            invariant
                i <= self.cells.len(),
                cells@ == self.cells@.subrange(0, i as int),
            decreases self.cells.len() - i,
        {
            cells.push(self.cells[i]);
            i += 1;
        }
        RowData { cells }
    }
}

impl RowData {
    pub fn new(cols: usize) -> (r: RowData)
        ensures
            r.cells@ == blank_row(cols as nat),
    {
        let mut cells: Vec<Cell> = Vec::with_capacity(cols);
        let mut i: usize = 0;
        while i < cols
            invariant
                i <= cols,
                cells@ == blank_row(i as nat),
            decreases cols - i,
        {
            cells.push(Cell::default());
            i += 1;
        }
        RowData { cells }
    }
}

/// `Arc::ptr_eq` of std: whether two handles hold the same allocation. Two
/// handles that do hold the same cells; nothing is claimed of two that do not.
#[verifier::external_body]
fn arc_ptr_eq(a: &Arc<RowData>, b: &Arc<RowData>) -> (same: bool)
    ensures
        same ==> a.cells@ == b.cells@,
{
    Arc::ptr_eq(a, b)
}

/// `Arc::clone` of std: a second handle on the same allocation, and so on the
/// same cells.
#[verifier::external_body]
fn arc_share(a: &Arc<RowData>) -> (r: Arc<RowData>)
    ensures
        r == *a,
{
    Arc::clone(a)
}

/// `Arc::make_mut` of std: a mutable reference to the cells behind the handle,
/// copied first if another handle shares them. What is written through the
/// reference is what the handle holds afterwards.
#[verifier::external_body]
fn arc_make_mut(this: &mut Arc<RowData>) -> (r: &mut RowData)
    ensures
        r.cells@ == old(this).cells@,
        final(this).cells@ == final(r).cells@,
{
    Arc::make_mut(this)
}

/// A shared row. The field is the handle itself, so that callers can tell
/// whether two rows are one allocation.
#[derive(Debug)]
pub struct Row(pub Arc<RowData>);

impl View for Row {
    type V = Seq<Cell>;

    open spec fn view(&self) -> Seq<Cell> {
        self.0.cells@
    }
}

impl Clone for Row {
    /// A second handle on the same row: no cell is copied.
    fn clone(&self) -> (r: Row)
        ensures
            r == *self,
    {
        Row(arc_share(&self.0))
    }
}

impl Row {
    pub fn new(cols: usize) -> (r: Row)
        ensures
            r@ == blank_row(cols as nat),
    {
        Row(Arc::new(RowData::new(cols)))
    }

    /// Whether the two rows are one allocation. Rows that are hold the same
    /// cells; rows that are not may still hold the same cells.
    pub fn ptr_eq(&self, other: &Row) -> (same: bool)
        ensures
            same ==> self@ == other@,
    {
        arc_ptr_eq(&self.0, &other.0)
    }

    pub fn get_cell(&self, col: usize) -> (r: Option<&Cell>)
        ensures
            col < self@.len() ==> r == Some(&self@[col as int]),
            col >= self@.len() ==> r.is_none(),
    {
        if col < self.0.cells.len() {
            Some(&self.0.cells[col])
        } else {
            None
        }
    }

    /// Writes `cell` at `col`; a column outside the row is ignored.
    pub fn set_cell(&mut self, col: usize, cell: Cell)
        ensures
            col < old(self)@.len() ==> final(self)@ == old(self)@.update(col as int, cell),
            col >= old(self)@.len() ==> final(self)@ == old(self)@,
    {
        if col < self.0.cells.len() {
            let data = arc_make_mut(&mut self.0);
            data.cells[col] = cell;
        }
    }

    pub fn cols(&self) -> (n: usize)
        ensures
            n == self@.len(),
    {
        self.0.cells.len()
    }

    /// A copy of the row's cells.
    pub fn to_row_data(&self) -> (data: RowData)
        ensures
            data.cells@ == self@,
    {
        let mut cells: Vec<Cell> = Vec::with_capacity(self.0.cells.len());
        let mut i: usize = 0;
        while i < self.0.cells.len()
            invariant
                i <= self@.len(),
                cells@ == self@.subrange(0, i as int),
            decreases self@.len() - i,
        {
            cells.push(self.0.cells[i]);
            i += 1;
        }
        assert(cells@ == self@);
        RowData { cells }
    }

    /// Cuts the row to `cols` cells or pads it with blanks up to `cols`.
    pub fn set_width(&mut self, cols: usize)
        ensures
            final(self)@ == widened(old(self)@, cols as nat),
    {
        if self.0.cells.len() != cols {
            let data = arc_make_mut(&mut self.0);
            let ghost before = data.cells@;
            if data.cells.len() > cols {
                data.cells.truncate(cols);
            }
            assert(data.cells@ =~= widened(before, data.cells@.len()));
            while data.cells.len() < cols
                invariant
                    data.cells@.len() <= cols,
                    data.cells@.len() >= before.len() || data.cells@.len() == cols,
                    data.cells@ == widened(before, data.cells@.len()),
                decreases cols - data.cells.len(),
            {
                let ghost prev = data.cells@;
                data.cells.push(Cell::default());
                assert(data.cells@ =~= widened(before, data.cells@.len())) by {
                    assert(data.cells@ == prev.push(Cell::blank()));
                }
            }
            assert(data.cells@ == widened(before, cols as nat));
        } else {
            assert(self@ == widened(self@, cols as nat));
        }
    }
}

/// `cells` cut or padded with blanks to exactly `cols` cells.
pub open spec fn widened(cells: Seq<Cell>, cols: nat) -> Seq<Cell> {
    Seq::new(cols, |i: int| if i < cells.len() { cells[i] } else { Cell::blank() })
}

#[derive(Debug, Clone, Copy, PartialEq, Eq, Structural)]
pub enum CursorShape {
    Block,
    Underline,
    Bar,
}

#[derive(Debug, Clone, Copy, PartialEq, Eq, Structural)]
pub struct Cursor {
    pub row: u32,
    pub col: u32,
    pub visible: bool,
    pub blink: bool,
    pub shape: CursorShape,
}

impl Cursor {
    /// The cursor of a fresh screen: top left, visible, blinking block.
    pub open spec fn home() -> Cursor {
        Cursor { row: 0u32, col: 0u32, visible: true, blink: true, shape: CursorShape::Block }
    }
}

impl Default for Cursor {
    fn default() -> (c: Cursor)
        ensures
            c == Cursor::home(),
    {
        Cursor { row: 0, col: 0, visible: true, blink: true, shape: CursorShape::Block }
    }
}

/// A screen: rows of cells and a cursor.
#[derive(Debug)]
pub struct FrameData {
    pub rows: Vec<Row>,
    pub cols: usize,
    pub cursor: Cursor,
}

/// The cells of a sequence of rows.
pub open spec fn rows_cells(rows: Seq<Row>) -> Seq<Seq<Cell>> {
    Seq::new(rows.len(), |i: int| rows[i]@)
}

/// A screen as contracts speak of it: its rows, its width and its cursor.
pub struct FrameView {
    pub rows: Seq<Row>,
    pub cols: usize,
    pub cursor: Cursor,
}

impl FrameView {
    /// The cells of the screen, row by row.
    pub open spec fn cells(self) -> Seq<Seq<Cell>> {
        rows_cells(self.rows)
    }

    /// Every row is `cols` cells wide.
    pub open spec fn wf(self) -> bool {
        forall|i: int| 0 <= i < self.rows.len() ==> (#[trigger] self.rows[i])@.len() == self.cols
    }
}

impl View for FrameData {
    type V = FrameView;

    open spec fn view(&self) -> FrameView {
        FrameView { rows: self.rows@, cols: self.cols, cursor: self.cursor }
    }
}

impl FrameData {
    /// The cells of the screen, row by row.
    pub open spec fn cells(&self) -> Seq<Seq<Cell>> {
        self@.cells()
    }

    /// Every row is `cols` cells wide.
    pub open spec fn wf(&self) -> bool {
        self@.wf()
    }

    /// `rows` blank rows of `cols` cells.
    pub open spec fn spec_blank(cols: nat, rows: nat) -> Seq<Seq<Cell>> {
        Seq::new(rows, |i: int| blank_row(cols))
    }

    pub fn new(cols: usize, rows: usize) -> (f: FrameData)
        ensures
            f.wf(),
            f.cols == cols,
            f.rows@.len() == rows,
            f.cursor == Cursor::home(),
            f.cells() == Self::spec_blank(cols as nat, rows as nat),
    {
        let mut v: Vec<Row> = Vec::with_capacity(rows);
        let mut i: usize = 0;
        while i < rows
            invariant
                i <= rows,
                v@.len() == i,
                forall|j: int| 0 <= j < i ==> (#[trigger] v@[j])@ == blank_row(cols as nat),
            decreases rows - i,
        {
            v.push(Row::new(cols));
            i += 1;
        }
        let f = FrameData { rows: v, cols, cursor: Cursor::default() };
        assert(f.cells() =~= Self::spec_blank(cols as nat, rows as nat));
        f
    }
}

impl Clone for FrameData {
    /// A frame that shares every row with this one.
    fn clone(&self) -> (f: FrameData)
        ensures
            f@ == self@,
    {
        let mut v: Vec<Row> = Vec::with_capacity(self.rows.len());
        let mut i: usize = 0;
        while i < self.rows.len()
            invariant
                i <= self.rows.len(),
                v@ == self.rows@.subrange(0, i as int),
            decreases self.rows.len() - i,
        {
            v.push(self.rows[i].clone());
            i += 1;
        }
        assert(v@ == self.rows@);
        FrameData { rows: v, cols: self.cols, cursor: self.cursor }
    }
}

/// A screen as it was at one state id.
#[derive(Debug)]
pub struct Frame {
    pub data: FrameData,
    pub state_id: u64,
}

impl Clone for Frame {
    fn clone(&self) -> (f: Frame)
        ensures
            f.data@ == self.data@,
            f.state_id == self.state_id,
    {
        Frame { data: self.data.clone(), state_id: self.state_id }
    }
}

/// The server's current screen, its state id, and the rows written since the
/// dirty set was last taken.
pub struct FrameStore {
    current: FrameData,
    state_id: u64,
    dirty_rows: HashSet<usize>,
}

impl FrameStore {
    /// The current screen.
    pub closed spec fn frame(&self) -> FrameData {
        self.current
    }

    /// The current state id.
    pub closed spec fn state(&self) -> u64 {
        self.state_id
    }

    /// The rows marked dirty.
    pub closed spec fn dirty(&self) -> Set<usize> {
        self.dirty_rows@
    }

    pub fn new(cols: usize, rows: usize) -> (s: FrameStore)
        ensures
            s.state() == 0,
            s.dirty() == Set::<usize>::empty(),
            s.frame().wf(),
            s.frame().cols == cols,
            s.frame().rows@.len() == rows,
            s.frame().cursor == Cursor::home(),
            s.frame().cells() == FrameData::spec_blank(cols as nat, rows as nat),
    {
        FrameStore { current: FrameData::new(cols, rows), state_id: 0, dirty_rows: HashSet::new() }
    }

    pub fn current_frame(&self) -> (f: &FrameData)
        ensures
            *f == self.frame(),
    {
        &self.current
    }

    pub fn current_state_id(&self) -> (id: u64)
        ensures
            id == self.state(),
    {
        self.state_id
    }

    /// Lets `f` write to row `row_idx` and marks the row dirty. An index
    /// outside the screen changes nothing, and `f` is not called.
    pub fn update_row<F: FnOnce(&mut Row)>(&mut self, row_idx: usize, f: F)
        requires
            forall|r: &mut Row|
                row_idx < old(self).frame().rows@.len() && *r == old(self).frame().rows@[row_idx as int]
                    ==> f.requires((r,)),
        ensures
            final(self).state() == old(self).state(),
            final(self).frame().cols == old(self).frame().cols,
            final(self).frame().cursor == old(self).frame().cursor,
            final(self).frame().rows@.len() == old(self).frame().rows@.len(),
            forall|j: int|
                0 <= j < old(self).frame().rows@.len() && j != row_idx ==> final(self).frame().rows@[j]
                    == old(self).frame().rows@[j],
            row_idx < old(self).frame().rows@.len() ==> {
                &&& final(self).dirty() == old(self).dirty().insert(row_idx)
                &&& exists|r: &mut Row|
                    *r == old(self).frame().rows@[row_idx as int] && *final(r) == final(self).frame().rows@[row_idx as int] && #[trigger] f.ensures((r,), ())
            },
            row_idx >= old(self).frame().rows@.len() ==> final(self).dirty() == old(self).dirty(),
    {
        if row_idx < self.current.rows.len() {
            f(&mut self.current.rows[row_idx]);
            self.dirty_rows.insert(row_idx);
        }
    }

    /// Writes one cell and marks its row dirty. A position outside the screen
    /// changes nothing.
    pub fn set_cell(&mut self, row_idx: usize, col: usize, cell: Cell)
        ensures
            final(self).state() == old(self).state(),
            final(self).frame().cols == old(self).frame().cols,
            final(self).frame().cursor == old(self).frame().cursor,
            final(self).frame().rows@.len() == old(self).frame().rows@.len(),
            forall|j: int|
                0 <= j < old(self).frame().rows@.len() && j != row_idx ==> final(self).frame().rows@[j]
                    == old(self).frame().rows@[j],
            row_idx < old(self).frame().rows@.len() ==> {
                &&& final(self).dirty() == old(self).dirty().insert(row_idx)
                &&& col < old(self).frame().rows@[row_idx as int]@.len() ==> final(self).frame().rows@[row_idx as int]@ == old(self).frame().rows@[row_idx as int]@.update(
                    col as int,
                    cell,
                )
                &&& col >= old(self).frame().rows@[row_idx as int]@.len() ==> final(self).frame().rows@[row_idx as int]@ == old(self).frame().rows@[row_idx as int]@
            },
            row_idx >= old(self).frame().rows@.len() ==> final(self).dirty() == old(self).dirty(),
    {
        if row_idx < self.current.rows.len() {
            self.current.rows[row_idx].set_cell(col, cell);
            self.dirty_rows.insert(row_idx);
        }
    }

    /// Replaces row `row_idx` by a fresh row holding `row_data` and marks it
    /// dirty. An index outside the screen changes nothing.
    pub fn set_row(&mut self, row_idx: usize, row_data: RowData)
        ensures
            final(self).state() == old(self).state(),
            final(self).frame().cols == old(self).frame().cols,
            final(self).frame().cursor == old(self).frame().cursor,
            final(self).frame().rows@.len() == old(self).frame().rows@.len(),
            forall|j: int|
                0 <= j < old(self).frame().rows@.len() && j != row_idx ==> final(self).frame().rows@[j]
                    == old(self).frame().rows@[j],
            row_idx < old(self).frame().rows@.len() ==> {
                &&& final(self).dirty() == old(self).dirty().insert(row_idx)
                &&& final(self).frame().rows@[row_idx as int]@ == row_data.cells@
            },
            row_idx >= old(self).frame().rows@.len() ==> final(self).dirty() == old(self).dirty(),
    {
        if row_idx < self.current.rows.len() {
            self.current.rows[row_idx] = Row(Arc::new(row_data));
            self.dirty_rows.insert(row_idx);
        }
    }

    pub fn set_cursor(&mut self, cursor: Cursor)
        ensures
            final(self).frame().cursor == cursor,
            final(self).frame().rows@ == old(self).frame().rows@,
            final(self).frame().cols == old(self).frame().cols,
            final(self).state() == old(self).state(),
            final(self).dirty() == old(self).dirty(),
    {
        self.current.cursor = cursor;
    }

    /// Moves to the next state id.
    pub fn advance_state(&mut self)
        requires
            old(self).state() < u64::MAX,
        ensures
            final(self).state() == old(self).state() + 1,
            final(self).frame() == old(self).frame(),
            final(self).dirty() == old(self).dirty(),
    {
        self.state_id += 1;
    }

    /// Hands out the dirty set and empties it.
    pub fn take_dirty_rows(&mut self) -> (taken: HashSet<usize>)
        ensures
            taken@ == old(self).dirty(),
            final(self).dirty() == Set::<usize>::empty(),
            final(self).frame() == old(self).frame(),
            final(self).state() == old(self).state(),
    {
        let mut taken: HashSet<usize> = HashSet::new();
        core::mem::swap(&mut self.dirty_rows, &mut taken);
        taken
    }

    /// The current screen with its state id. The frame shares every row with
    /// the store.
    pub fn snapshot(&self) -> (f: Frame)
        ensures
            f.state_id == self.state(),
            f.data@ == self.frame()@,
    {
        Frame { data: self.current.clone(), state_id: self.state_id }
    }

    /// Gives the screen `new_rows` rows of `new_cols` cells: rows are added
    /// blank at the bottom or cut from the bottom, and every row that stays is
    /// cut or padded to the new width. Every row of the new screen is marked
    /// dirty.
    pub fn resize(&mut self, new_cols: usize, new_rows: usize)
        ensures
            final(self).state() == old(self).state(),
            final(self).frame().cursor == old(self).frame().cursor,
            final(self).frame().cols == new_cols,
            final(self).frame().rows@.len() == new_rows,
            forall|i: int|
                0 <= i < new_rows ==> (#[trigger] final(self).frame().rows@[i])@ == (if i < old(self).frame().rows@.len() {
                    widened(old(self).frame().rows@[i]@, new_cols as nat)
                } else {
                    blank_row(new_cols as nat)
                }),
            final(self).frame().wf(),
            final(self).dirty() == old(self).dirty().union(Set::new(|i: usize| i < new_rows)),
    {
        let ghost before = self.current.rows@;
        let ghost dirty_before = self.dirty_rows@;
        if self.current.rows.len() > new_rows {
            self.current.rows.truncate(new_rows);
        }
        let kept: usize = self.current.rows.len();
        let mut i: usize = 0;
        while i < kept
            invariant
                i <= kept,
                kept == self.current.rows@.len(),
                kept <= before.len(),
                kept <= new_rows,
                self.state_id == old(self).state_id,
                self.current.cursor == old(self).current.cursor,
                self.dirty_rows@ == dirty_before,
                forall|j: int| 0 <= j < i ==> (#[trigger] self.current.rows@[j])@ == widened(before[j]@, new_cols as nat),
                forall|j: int| i <= j < kept ==> self.current.rows@[j] == before[j],
            decreases kept - i,
        {
            self.current.rows[i].set_width(new_cols);
            i += 1;
        }
        while self.current.rows.len() < new_rows
            invariant
                kept <= self.current.rows@.len() <= new_rows,
                kept <= before.len(),
                kept == before.len() || kept == new_rows,
                self.state_id == old(self).state_id,
                self.current.cursor == old(self).current.cursor,
                self.dirty_rows@ == dirty_before,
                forall|j: int| 0 <= j < kept ==> (#[trigger] self.current.rows@[j])@ == widened(before[j]@, new_cols as nat),
                forall|j: int| kept <= j < self.current.rows@.len() ==> (#[trigger] self.current.rows@[j])@ == blank_row(new_cols as nat),
            decreases new_rows - self.current.rows.len(),
        {
            self.current.rows.push(Row::new(new_cols));
        }
        self.current.cols = new_cols;
        let ghost resized = self.current;
        assert(dirty_before =~= dirty_before.union(Set::new(|i: usize| i < 0)));
        let mut k: usize = 0;
        while k < new_rows
            invariant
                k <= new_rows,
                self.current == resized,
                self.state_id == old(self).state_id,
                self.dirty_rows@ == dirty_before.union(Set::new(|i: usize| i < k)),
            decreases new_rows - k,
        {
            self.dirty_rows.insert(k);
            assert(dirty_before.union(Set::new(|i: usize| i < k)).insert(k) =~= dirty_before.union(Set::new(|i: usize| i < k + 1)));
            k += 1;
        }
    }
}

} // verus!
