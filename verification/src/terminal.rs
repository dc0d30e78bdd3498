//! What the multiplexer shows the adapter: characters with their styles, the
//! chunks of a composited screen, and a pane's grid. These types hold, as
//! plain values, what the conversion to frames reads of the multiplexer's
//! screen.

use vstd::prelude::*;
use std::rc::Rc;
use crate::prediction::{char_display_width, spec_display_width};

verus! {

#[derive(Debug, Clone, Copy, PartialEq, Eq, Structural)]
pub enum NamedColor {
    Black,
    Red,
    Green,
    Yellow,
    Blue,
    Magenta,
    Cyan,
    White,
    BrightBlack,
    BrightRed,
    BrightGreen,
    BrightYellow,
    BrightBlue,
    BrightMagenta,
    BrightCyan,
    BrightWhite,
}

#[derive(Debug, Clone, Copy, PartialEq, Eq, Structural)]
pub enum AnsiStyledUnderline {
    Double,
    Undercurl,
    Underdotted,
    Underdashed,
}

/// One setting of a character's style as the terminal's escape codes name
/// it.
#[derive(Debug, Clone, Copy, PartialEq, Eq)]
pub enum AnsiCode {
    On,
    Reset,
    NamedColor(NamedColor),
    RgbCode((u8, u8, u8)),
    ColorIndex(u8),
    Underline(Option<AnsiStyledUnderline>),
}

#[derive(Debug, Clone, Copy, PartialEq, Eq)]
pub struct CharacterStyles {
    pub foreground: Option<AnsiCode>,
    pub background: Option<AnsiCode>,
    pub underline_color: Option<AnsiCode>,
    pub strike: Option<AnsiCode>,
    pub hidden: Option<AnsiCode>,
    pub reverse: Option<AnsiCode>,
    pub slow_blink: Option<AnsiCode>,
    pub fast_blink: Option<AnsiCode>,
    pub underline: Option<AnsiCode>,
    pub bold: Option<AnsiCode>,
    pub dim: Option<AnsiCode>,
    pub italic: Option<AnsiCode>,
}

impl CharacterStyles {
    /// The styles that set nothing.
    pub open spec fn unset() -> CharacterStyles {
        CharacterStyles {
            foreground: None,
            background: None,
            underline_color: None,
            strike: None,
            hidden: None,
            reverse: None,
            slow_blink: None,
            fast_blink: None,
            underline: None,
            bold: None,
            dim: None,
            italic: None,
        }
    }

    /// The styles that reset everything.
    pub open spec fn reset() -> CharacterStyles {
        CharacterStyles {
            foreground: Some(AnsiCode::Reset),
            background: Some(AnsiCode::Reset),
            underline_color: Some(AnsiCode::Reset),
            strike: Some(AnsiCode::Reset),
            hidden: Some(AnsiCode::Reset),
            reverse: Some(AnsiCode::Reset),
            slow_blink: Some(AnsiCode::Reset),
            fast_blink: Some(AnsiCode::Reset),
            underline: Some(AnsiCode::Reset),
            bold: Some(AnsiCode::Reset),
            dim: Some(AnsiCode::Reset),
            italic: Some(AnsiCode::Reset),
        }
    }

    pub fn new_reset() -> (s: CharacterStyles)
        ensures
            s == Self::reset(),
    {
        CharacterStyles {
            foreground: Some(AnsiCode::Reset),
            background: Some(AnsiCode::Reset),
            underline_color: Some(AnsiCode::Reset),
            strike: Some(AnsiCode::Reset),
            hidden: Some(AnsiCode::Reset),
            reverse: Some(AnsiCode::Reset),
            slow_blink: Some(AnsiCode::Reset),
            fast_blink: Some(AnsiCode::Reset),
            underline: Some(AnsiCode::Reset),
            bold: Some(AnsiCode::Reset),
            dim: Some(AnsiCode::Reset),
            italic: Some(AnsiCode::Reset),
        }
    }

    /// These styles with another foreground.
    pub fn foreground(self, code: Option<AnsiCode>) -> (s: CharacterStyles)
        ensures
            s == (CharacterStyles { foreground: code, ..self }),
    {
        CharacterStyles { foreground: code, ..self }
    }

    /// These styles with another background.
    pub fn background(self, code: Option<AnsiCode>) -> (s: CharacterStyles)
        ensures
            s == (CharacterStyles { background: code, ..self }),
    {
        CharacterStyles { background: code, ..self }
    }
}

impl Default for CharacterStyles {
    fn default() -> (s: CharacterStyles)
        ensures
            s == CharacterStyles::unset(),
    {
        CharacterStyles {
            foreground: None,
            background: None,
            underline_color: None,
            strike: None,
            hidden: None,
            reverse: None,
            slow_blink: None,
            fast_blink: None,
            underline: None,
            bold: None,
            dim: None,
            italic: None,
        }
    }
}

/// Styles as characters hold them: the reset styles, or styles shared among
/// the characters that were written with them.
#[derive(Debug)]
pub enum RcCharacterStyles {
    Reset,
    Rc(Rc<CharacterStyles>),
}

impl View for RcCharacterStyles {
    type V = CharacterStyles;

    open spec fn view(&self) -> CharacterStyles {
        match self {
            RcCharacterStyles::Reset => CharacterStyles::reset(),
            RcCharacterStyles::Rc(rc) => **rc,
        }
    }
}

/// `Rc::clone` of std: a second handle on the same styles.
#[verifier::external_body]
fn rc_share(a: &Rc<CharacterStyles>) -> (r: Rc<CharacterStyles>)
    ensures
        r == *a,
{
    Rc::clone(a)
}

/// `Rc::as_ptr` of std, as a number: where the shared styles lie in memory.
/// std gives a pointer that is valid while the handle lives, and a valid
/// pointer to styles, which take room, is never null: the number is not 0.
/// Nothing else is claimed of it.
#[verifier::external_body]
fn rc_address(a: &Rc<CharacterStyles>) -> (address: usize)
    ensures
        address != 0,
{
    Rc::as_ptr(a) as usize
}

impl Clone for RcCharacterStyles {
    fn clone(&self) -> (r: RcCharacterStyles)
        ensures
            r == *self,
    {
        match self {
            RcCharacterStyles::Reset => RcCharacterStyles::Reset,
            RcCharacterStyles::Rc(rc) => RcCharacterStyles::Rc(rc_share(rc)),
        }
    }
}

impl Default for RcCharacterStyles {
    fn default() -> (r: RcCharacterStyles)
        ensures
            r == RcCharacterStyles::Reset,
    {
        RcCharacterStyles::Reset
    }
}

impl RcCharacterStyles {
    /// Shared styles with the given settings.
    pub fn new(styles: CharacterStyles) -> (r: RcCharacterStyles)
        ensures
            r@ == styles,
    {
        RcCharacterStyles::Rc(Rc::new(styles))
    }

    /// The settings.
    pub fn styles(&self) -> (s: CharacterStyles)
        ensures
            s == self@,
    {
        match self {
            RcCharacterStyles::Reset => CharacterStyles::new_reset(),
            RcCharacterStyles::Rc(rc) => **rc,
        }
    }

    /// A number that tells shared styles apart while they live: 0 for the
    /// reset styles, the place in memory for others, which is never 0. So
    /// the key 0 stands for the reset styles and for nothing else.
    pub fn cache_key(&self) -> (key: usize)
        ensures
            (key == 0) == (self is Reset),
    {
        match self {
            RcCharacterStyles::Reset => 0,
            RcCharacterStyles::Rc(rc) => rc_address(rc),
        }
    }
}

/// One character of the multiplexer's screen.
#[derive(Debug, Clone)]
pub struct TerminalCharacter {
    pub character: char,
    pub styles: RcCharacterStyles,
    /// How many columns the character takes.
    pub width: u8,
}

impl TerminalCharacter {
    /// How many columns the character takes.
    pub open spec fn spec_width(&self) -> usize {
        self.width as usize
    }

    /// A character in the reset styles. It is two columns wide if it is East
    /// Asian Wide, and one otherwise.
    pub fn new(character: char) -> (tc: TerminalCharacter)
        ensures
            tc.character == character,
            tc.styles == RcCharacterStyles::Reset,
            tc.spec_width() == spec_display_width(character as u32),
    {
        TerminalCharacter { character, styles: RcCharacterStyles::Reset, width: char_display_width(character) }
    }

    /// A character in the given styles.
    pub fn new_styled(character: char, styles: RcCharacterStyles) -> (tc: TerminalCharacter)
        ensures
            tc.character == character,
            tc.styles == styles,
            tc.spec_width() == spec_display_width(character as u32),
    {
        TerminalCharacter { character, styles, width: char_display_width(character) }
    }

    pub fn width(&self) -> (w: usize)
        ensures
            w == self.spec_width(),
    {
        self.width as usize
    }
}

/// The cursor shapes of the multiplexer.
#[derive(Debug, Clone, Copy, PartialEq, Eq, Structural)]
pub enum GridCursorShape {
    Initial,
    Block,
    BlinkingBlock,
    Underline,
    BlinkingUnderline,
    Beam,
    BlinkingBeam,
}

/// A selected region of the screen, from `start` up to but not including
/// `end`, each a row and a column, in reading order.
#[derive(Debug, Clone, Copy, PartialEq, Eq)]
pub struct Selection {
    pub start: (usize, usize),
    pub end: (usize, usize),
}

/// Whether position `a` comes before position `b` in reading order.
pub open spec fn before(a: (usize, usize), b: (usize, usize)) -> bool {
    a.0 < b.0 || (a.0 == b.0 && a.1 < b.1)
}

impl Selection {
    /// Whether the selection holds the cell at `row` and `col`. The two ends
    /// may be given in either order.
    pub open spec fn spec_contains(self, row: usize, col: usize) -> bool {
        let (first, last) = if before(self.end, self.start) {
            (self.end, self.start)
        } else {
            (self.start, self.end)
        };
        !before((row, col), first) && before((row, col), last)
    }

    pub fn contains(&self, row: usize, col: usize) -> (b: bool)
        ensures
            b == self.spec_contains(row, col),
    {
        let swapped = self.end.0 < self.start.0 || (self.end.0 == self.start.0 && self.end.1 < self.start.1);
        let (first, last) = if swapped {
            (self.end, self.start)
        } else {
            (self.start, self.end)
        };
        let before_first = row < first.0 || (row == first.0 && col < first.1);
        let before_last = row < last.0 || (row == last.0 && col < last.1);
        !before_first && before_last
    }
}

/// A run of characters of the composited screen that starts at column `x`
/// of row `y`, with the selections that colour it: each with its background
/// and, where it has one, its foreground.
#[derive(Debug, Clone)]
pub struct CharacterChunk {
    pub terminal_characters: Vec<TerminalCharacter>,
    pub x: usize,
    pub y: usize,
    pub selection_and_colors: Vec<(Selection, AnsiCode, Option<AnsiCode>)>,
}

impl CharacterChunk {
    /// The selections that colour the chunk.
    pub open spec fn selections(&self) -> Seq<(Selection, AnsiCode, Option<AnsiCode>)> {
        self.selection_and_colors@
    }

    pub fn new(terminal_characters: Vec<TerminalCharacter>, x: usize, y: usize) -> (chunk: CharacterChunk)
        ensures
            chunk.terminal_characters == terminal_characters,
            chunk.x == x,
            chunk.y == y,
            chunk.selections().len() == 0,
    {
        CharacterChunk { terminal_characters, x, y, selection_and_colors: Vec::new() }
    }

    /// Adds a selection that colours the chunk.
    pub fn add_selection_and_colors(
        &mut self,
        selection: Selection,
        background_color: AnsiCode,
        foreground_color: Option<AnsiCode>,
    )
        ensures
            final(self).terminal_characters == old(self).terminal_characters,
            final(self).x == old(self).x,
            final(self).y == old(self).y,
            final(self).selections() == old(self).selections().push(
                (selection, background_color, foreground_color),
            ),
    {
        self.selection_and_colors.push((selection, background_color, foreground_color));
    }

    pub fn selection_and_colors(&self) -> (list: Vec<(Selection, AnsiCode, Option<AnsiCode>)>)
        ensures
            list@ == self.selections(),
    {
        let mut list: Vec<(Selection, AnsiCode, Option<AnsiCode>)> = Vec::new();
        let mut i: usize = 0;
        while i < self.selection_and_colors.len()
            invariant
                i <= self.selection_and_colors@.len(),
                list@ == self.selection_and_colors@.subrange(0, i as int),
            decreases self.selection_and_colors@.len() - i,
        {
            list.push(self.selection_and_colors[i]);
            i += 1;
        }
        assert(list@ == self.selection_and_colors@);
        list
    }
}

/// One row of a pane's grid.
#[derive(Debug, Clone)]
pub struct GridRow {
    pub columns: Vec<TerminalCharacter>,
}

/// A pane's grid as the adapter sees it: its size, the rows in view, and the
/// cursor.
#[derive(Debug, Clone)]
pub struct Grid {
    pub width: usize,
    pub height: usize,
    pub viewport: Vec<GridRow>,
    /// The cursor's column and row, if the grid has a cursor.
    pub cursor: Option<(usize, usize)>,
    pub cursor_shape: GridCursorShape,
    pub cursor_hidden: bool,
}

impl Grid {
    pub fn cursor_shape(&self) -> (shape: GridCursorShape)
        ensures
            shape == self.cursor_shape,
    {
        self.cursor_shape
    }

    pub fn cursor_coordinates(&self) -> (at: Option<(usize, usize)>)
        ensures
            at == self.cursor,
    {
        self.cursor
    }

    pub fn cursor_is_hidden(&self) -> (hidden: bool)
        ensures
            hidden == self.cursor_hidden,
    {
        self.cursor_hidden
    }
}

} // verus!
