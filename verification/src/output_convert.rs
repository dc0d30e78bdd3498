//! From the multiplexer's composited screen, given as chunks of characters,
//! to a frame store.

use vstd::prelude::*;
use crate::frame::{Cell, Cursor, FrameData, FrameStore};
use crate::protocol::Style;
use crate::style_convert::{character_styles_to_cell, spec_style};
use crate::style_table::StyleTable;
use crate::terminal::{AnsiCode, CharacterChunk, CharacterStyles, Selection, TerminalCharacter};

verus! {

/// A screen while it is painted: its cells, the styles interned so far, and
/// the rows written to.
pub struct Painted {
    pub cells: Seq<Seq<Cell>>,
    pub styles: Seq<Style>,
    pub dirty: Set<usize>,
}

/// The styles of a character at row `y` and column `x` under the
/// selections: the first selection that holds the cell gives it its
/// background and, where it has one, its foreground.
pub open spec fn spec_selection_styling(
    selections: Seq<(Selection, AnsiCode, Option<AnsiCode>)>,
    styles: CharacterStyles,
    y: usize,
    x: usize,
) -> CharacterStyles
    decreases selections.len(),
{
    if selections.len() == 0 {
        styles
    } else if selections[0].0.spec_contains(y, x) {
        let with_background = CharacterStyles { background: Some(selections[0].1), ..styles };
        match selections[0].2 {
            Some(fg) => CharacterStyles { foreground: Some(fg), ..with_background },
            None => with_background,
        }
    } else {
        spec_selection_styling(selections.drop_first(), styles, y, x)
    }
}

/// The continuation cell of a wide character: no code point, no width, the
/// character's style.
pub open spec fn continuation(style_id: u16) -> Cell {
    Cell { codepoint: 0, width: 0, style_id }
}

impl Painted {
    /// The screen after `cell` was written at row `y` and column `col`. A
    /// position outside the screen is not written; a row of the screen is
    /// marked dirty either way.
    pub open spec fn cell_written(self, y: usize, col: int, cell: Cell) -> Painted {
        if y < self.cells.len() {
            Painted {
                cells: if 0 <= col < self.cells[y as int].len() {
                    self.cells.update(y as int, self.cells[y as int].update(col, cell))
                } else {
                    self.cells
                },
                dirty: self.dirty.insert(y),
                ..self
            }
        } else {
            self
        }
    }

    /// The screen after the continuation cells of a character of `width`
    /// columns at column `col` were written, from the `offset`-th on, as far
    /// as the screen's `cols` columns reach.
    pub open spec fn continued(self, y: usize, col: int, width: int, offset: int, cols: int, style_id: u16) -> Painted
        decreases width - offset,
    {
        if offset >= width || offset < 1 || col + offset >= cols {
            self
        } else {
            self.cell_written(y, col + offset, continuation(style_id)).continued(y, col, width, offset + 1, cols, style_id)
        }
    }

    /// The screen after one character was painted at column `col` of row
    /// `y`: its style is interned, its cell is written, and the
    /// continuation cells follow.
    pub open spec fn char_painted(
        self,
        tc: TerminalCharacter,
        selections: Seq<(Selection, AnsiCode, Option<AnsiCode>)>,
        y: usize,
        col: int,
        cols: int,
    ) -> Painted {
        let adjusted = spec_selection_styling(selections, tc.styles@, y, col as usize);
        let (styles, style_id) = StyleTable::spec_get_or_insert(self.styles, spec_style(adjusted));
        let cell = Cell { codepoint: tc.character as u32, width: tc.width, style_id };
        (Painted { styles, ..self }).cell_written(y, col, cell).continued(y, col, tc.width as int, 1, cols, style_id)
    }

    /// The screen after the characters from the `i`-th on were painted, the
    /// `i`-th at column `col`, each after the columns of the one before.
    /// Painting stops at the screen's right edge.
    pub open spec fn chars_painted(
        self,
        chars: Seq<TerminalCharacter>,
        selections: Seq<(Selection, AnsiCode, Option<AnsiCode>)>,
        i: int,
        y: usize,
        col: int,
        cols: int,
    ) -> Painted
        decreases chars.len() - i,
    {
        if i < 0 || i >= chars.len() || col >= cols {
            self
        } else {
            self.char_painted(chars[i], selections, y, col, cols).chars_painted(chars, selections, i + 1, y, col + chars[i].width, cols)
        }
    }

    /// The screen after one chunk was painted. A chunk below the screen is
    /// skipped.
    pub open spec fn chunk_painted(self, chunk: CharacterChunk, cols: int, rows: int) -> Painted {
        if chunk.y >= rows {
            self
        } else {
            self.chars_painted(chunk.terminal_characters@, chunk.selections(), 0, chunk.y, chunk.x as int, cols)
        }
    }

    /// The screen after the first `n` chunks were painted, in their order.
    pub open spec fn chunks_painted(self, chunks: Seq<CharacterChunk>, n: int, cols: int, rows: int) -> Painted
        decreases n,
    {
        if n <= 0 {
            self
        } else {
            self.chunks_painted(chunks, n - 1, cols, rows).chunk_painted(chunks[n - 1], cols, rows)
        }
    }
}

/// The styles of a character at row `chunk_y` and column `chunk_x` under the
/// selections that colour its chunk.
pub fn apply_selection_styling(
    selection_and_colors: &[(Selection, AnsiCode, Option<AnsiCode>)],
    character_styles: CharacterStyles,
    chunk_y: usize,
    chunk_x: usize,
) -> (styles: CharacterStyles)
    ensures
        styles == spec_selection_styling(selection_and_colors@, character_styles, chunk_y, chunk_x),
{
    let mut i: usize = 0;
    assert(selection_and_colors@.skip(0) =~= selection_and_colors@);
    while i < selection_and_colors.len()
        invariant
            i <= selection_and_colors@.len(),
            spec_selection_styling(selection_and_colors@, character_styles, chunk_y, chunk_x)
                == spec_selection_styling(selection_and_colors@.skip(i as int), character_styles, chunk_y, chunk_x),
        decreases selection_and_colors@.len() - i,
    {
        let entry = &selection_and_colors[i];
        assert(selection_and_colors@.skip(i as int)[0] == *entry);
        if entry.0.contains(chunk_y, chunk_x) {
            let styles = character_styles.background(Some(entry.1));
            return match entry.2 {
                Some(fg) => styles.foreground(Some(fg)),
                None => styles,
            };
        }
        assert(selection_and_colors@.skip(i as int).drop_first() =~= selection_and_colors@.skip(i + 1));
        i += 1;
    }
    character_styles
}

/// What a store holds, as a screen while it is painted.
pub open spec fn painted_of(store: FrameStore, styles: Seq<Style>) -> Painted {
    Painted { cells: store.frame().cells(), styles, dirty: store.dirty() }
}

fn write(store: &mut FrameStore, y: usize, col: usize, cell: Cell, Ghost(styles): Ghost<Seq<Style>>)
    ensures
        painted_of(*final(store), styles) == painted_of(*old(store), styles).cell_written(y, col as int, cell),
        final(store).state() == old(store).state(),
        final(store).frame().cols == old(store).frame().cols,
        final(store).frame().cursor == old(store).frame().cursor,
        final(store).frame().rows@.len() == old(store).frame().rows@.len(),
        forall|j: int|
            0 <= j < old(store).frame().rows@.len() ==> (#[trigger] final(store).frame().rows@[j])@.len()
                == old(store).frame().rows@[j]@.len(),
{
    store.set_cell(y, col, cell);
    proof {
        let before = painted_of(*old(store), styles);
        let after = painted_of(*store, styles);
        let expected = before.cell_written(y, col as int, cell);
        if y < before.cells.len() {
            assert(after.cells =~= expected.cells) by {
                assert forall|j: int| 0 <= j < before.cells.len() implies after.cells[j] == expected.cells[j] by {
                    if j != y {
                        assert(store.frame().rows@[j] == old(store).frame().rows@[j]);
                    }
                }
            }
        } else {
            assert(after.cells =~= before.cells) by {
                assert forall|j: int| 0 <= j < before.cells.len() implies after.cells[j] == before.cells[j] by {
                    assert(store.frame().rows@[j] == old(store).frame().rows@[j]);
                }
            }
        }
    }
}

/// A frame store with the chunks of a composited screen painted onto a
/// blank screen of `cols` columns and `rows` rows, at state 1. The styles of
/// the characters are interned in the order in which the characters are
/// painted; a later chunk paints over an earlier one.
pub fn chunks_to_frame_store(chunks: &[CharacterChunk], cols: usize, rows: usize, style_table: &mut StyleTable) -> (store:
    FrameStore)
    ensures
        store.state() == 1,
        store.frame().cols == cols,
        store.frame().cursor == Cursor::home(),
        store.frame().wf(),
        store.frame().rows@.len() == rows,
        final(style_table).wf(),
        painted_of(store, final(style_table)@) == (Painted {
            cells: FrameData::spec_blank(cols as nat, rows as nat),
            styles: old(style_table)@,
            dirty: Set::empty(),
        }).chunks_painted(chunks@, chunks@.len() as int, cols as int, rows as int),
{
    let mut store = FrameStore::new(cols, rows);
    let _ = style_table.current_count();
    let ghost start = Painted {
        cells: FrameData::spec_blank(cols as nat, rows as nat),
        styles: style_table@,
        dirty: Set::empty(),
    };
    let mut ci: usize = 0;
    while ci < chunks.len()
        invariant
            ci <= chunks@.len(),
            store.state() == 0,
            store.frame().cols == cols,
            store.frame().cursor == Cursor::home(),
            store.frame().rows@.len() == rows,
            store.frame().wf(),
            style_table.wf(),
            painted_of(store, style_table@) == start.chunks_painted(chunks@, ci as int, cols as int, rows as int),
        decreases chunks@.len() - ci,
    {
        let chunk = &chunks[ci];
        let chunk_y = chunk.y;
        let ghost at_chunk = painted_of(store, style_table@);
        if chunk_y < rows {
            let selection_and_colors = chunk.selection_and_colors();
            let mut col: usize = chunk.x;
            let mut i: usize = 0;
            let n = chunk.terminal_characters.len();
            let ghost chars = chunk.terminal_characters@;
            let ghost goal = at_chunk.chunk_painted(*chunk, cols as int, rows as int);
            while i < n && col < cols
                invariant
                    i <= n,
                    n == chars.len(),
                    chars == chunk.terminal_characters@,
                    chunk_y == chunk.y,
                    chunk_y < rows,
                    selection_and_colors@ == chunk.selections(),
                    store.state() == 0,
                    store.frame().cols == cols,
                    store.frame().cursor == Cursor::home(),
                    store.frame().rows@.len() == rows,
                    store.frame().wf(),
                    style_table.wf(),
                    goal == painted_of(store, style_table@).chars_painted(
                        chars,
                        chunk.selections(),
                        i as int,
                        chunk_y,
                        col as int,
                        cols as int,
                    ),
                decreases n - i,
            {
                let tc = &chunk.terminal_characters[i];
                let adjusted = apply_selection_styling(
                    selection_and_colors.as_slice(),
                    tc.styles.styles(),
                    chunk_y,
                    col,
                );
                let ghost before_char = painted_of(store, style_table@);
                let cell = character_styles_to_cell(tc.character, tc.width(), &adjusted, style_table);
                let width = tc.width();
                write(&mut store, chunk_y, col, cell, Ghost(style_table@));
                let ghost after_cell = painted_of(store, style_table@);
                let mut offset: usize = 1;
                while offset < width && offset <= usize::MAX - col && col + offset < cols
                    invariant
                        1 <= offset,
                        width == tc.width,
                        col < cols,
                        store.state() == 0,
                        store.frame().cols == cols,
                        store.frame().cursor == Cursor::home(),
                        store.frame().rows@.len() == rows,
                        store.frame().wf(),
                        after_cell.continued(chunk_y, col as int, width as int, 1, cols as int, cell.style_id)
                            == painted_of(store, style_table@).continued(
                            chunk_y,
                            col as int,
                            width as int,
                            offset as int,
                            cols as int,
                            cell.style_id,
                        ),
                    decreases width - offset,
                {
                    write(
                        &mut store,
                        chunk_y,
                        col + offset,
                        Cell { codepoint: 0, width: 0, style_id: cell.style_id },
                        Ghost(style_table@),
                    );
                    offset += 1;
                }
                let ghost after_char = painted_of(store, style_table@);
                assert(after_char == before_char.char_painted(
                    *tc,
                    chunk.selections(),
                    chunk_y,
                    col as int,
                    cols as int,
                ));
                assert(goal == after_char.chars_painted(
                    chars,
                    chunk.selections(),
                    i + 1,
                    chunk_y,
                    col + width,
                    cols as int,
                ));
                i += 1;
                if width > usize::MAX - col {
                    assert(after_char.chars_painted(
                        chars,
                        chunk.selections(),
                        i as int,
                        chunk_y,
                        col + width,
                        cols as int,
                    ) == after_char);
                    col = cols;
                    assert(after_char.chars_painted(
                        chars,
                        chunk.selections(),
                        i as int,
                        chunk_y,
                        col as int,
                        cols as int,
                    ) == after_char);
                } else {
                    col += width;
                }
            }
        }
        ci += 1;
    }
    store.advance_state();
    store
}

} // verus!
