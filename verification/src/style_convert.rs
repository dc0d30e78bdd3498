//! From the multiplexer's character styles to the protocol's styles and
//! cells.

use vstd::prelude::*;
use std::collections::HashMap;
use crate::frame::Cell;
use crate::protocol::color::Value;
use crate::protocol::{Color, DefaultColor, Rgb, Style, UnderlineStyle};
use crate::style_table::{lemma_first_index, StyleTable};
use crate::terminal::{
    AnsiCode, AnsiStyledUnderline, CharacterStyles, NamedColor, RcCharacterStyles, TerminalCharacter,
};

verus! {

broadcast use vstd::std_specs::hash::group_hash_axioms;

/// The index of a named colour among the 256 indexed colours: 0 to 7 for the
/// plain colours, 8 to 15 for the bright ones.
pub open spec fn spec_named_color(color: NamedColor) -> u32 {
    match color {
        NamedColor::Black => 0,
        NamedColor::Red => 1,
        NamedColor::Green => 2,
        NamedColor::Yellow => 3,
        NamedColor::Blue => 4,
        NamedColor::Magenta => 5,
        NamedColor::Cyan => 6,
        NamedColor::White => 7,
        NamedColor::BrightBlack => 8,
        NamedColor::BrightRed => 9,
        NamedColor::BrightGreen => 10,
        NamedColor::BrightYellow => 11,
        NamedColor::BrightBlue => 12,
        NamedColor::BrightMagenta => 13,
        NamedColor::BrightCyan => 14,
        NamedColor::BrightWhite => 15,
    }
}

/// The colour that a colour setting stands for: the default colour for a
/// reset, an indexed colour for a named or indexed one, a true colour for
/// RGB; none for no setting and for settings that are no colours.
pub open spec fn spec_color(code: Option<AnsiCode>) -> Option<Color> {
    match code {
        None => None,
        Some(AnsiCode::Reset) => Some(Color { value: Some(Value::DefaultColor(DefaultColor {  })) }),
        Some(AnsiCode::NamedColor(named)) => Some(Color { value: Some(Value::Ansi256(spec_named_color(named))) }),
        Some(AnsiCode::RgbCode(rgb)) => Some(
            Color { value: Some(Value::Rgb(Rgb { r: rgb.0 as u32, g: rgb.1 as u32, b: rgb.2 as u32 })) },
        ),
        Some(AnsiCode::ColorIndex(idx)) => Some(Color { value: Some(Value::Ansi256(idx as u32)) }),
        Some(AnsiCode::On) => None,
        Some(AnsiCode::Underline(_)) => None,
    }
}

/// The underline that an underline setting stands for.
pub open spec fn spec_underline(code: AnsiCode) -> UnderlineStyle {
    match code {
        AnsiCode::On => UnderlineStyle::Single,
        AnsiCode::Underline(Some(AnsiStyledUnderline::Double)) => UnderlineStyle::Double,
        AnsiCode::Underline(Some(AnsiStyledUnderline::Undercurl)) => UnderlineStyle::Curly,
        AnsiCode::Underline(Some(AnsiStyledUnderline::Underdotted)) => UnderlineStyle::Dotted,
        AnsiCode::Underline(Some(AnsiStyledUnderline::Underdashed)) => UnderlineStyle::Dashed,
        AnsiCode::Underline(None) => UnderlineStyle::Single,
        _ => UnderlineStyle::NoUnderline,
    }
}

/// Whether an attribute is switched on.
pub open spec fn is_on(code: Option<AnsiCode>) -> bool {
    code matches Some(AnsiCode::On)
}

/// The protocol's style for the multiplexer's styles.
pub open spec fn spec_style(styles: CharacterStyles) -> Style {
    Style {
        fg: spec_color(styles.foreground),
        bg: spec_color(styles.background),
        bold: is_on(styles.bold),
        dim: is_on(styles.dim),
        italic: is_on(styles.italic),
        reverse: is_on(styles.reverse),
        hidden: is_on(styles.hidden),
        strike: is_on(styles.strike),
        blink_slow: is_on(styles.slow_blink),
        blink_fast: is_on(styles.fast_blink),
        underline: match styles.underline {
            Some(code) => spec_underline(code).spec_code(),
            None => UnderlineStyle::Unspecified.spec_code(),
        },
        underline_color: spec_color(styles.underline_color),
    }
}

pub fn named_color_to_ansi256(color: NamedColor) -> (index: u32)
    ensures
        index == spec_named_color(color),
{
    match color {
        NamedColor::Black => 0,
        NamedColor::Red => 1,
        NamedColor::Green => 2,
        NamedColor::Yellow => 3,
        NamedColor::Blue => 4,
        NamedColor::Magenta => 5,
        NamedColor::Cyan => 6,
        NamedColor::White => 7,
        NamedColor::BrightBlack => 8,
        NamedColor::BrightRed => 9,
        NamedColor::BrightGreen => 10,
        NamedColor::BrightYellow => 11,
        NamedColor::BrightBlue => 12,
        NamedColor::BrightMagenta => 13,
        NamedColor::BrightCyan => 14,
        NamedColor::BrightWhite => 15,
    }
}

pub fn ansi_code_to_color(code: &Option<AnsiCode>) -> (color: Option<Color>)
    ensures
        color == spec_color(*code),
{
    match code {
        None => None,
        Some(AnsiCode::Reset) => Some(Color { value: Some(Value::DefaultColor(DefaultColor {  })) }),
        Some(AnsiCode::NamedColor(named)) => Some(
            Color { value: Some(Value::Ansi256(named_color_to_ansi256(*named))) },
        ),
        Some(AnsiCode::RgbCode(rgb)) => Some(
            Color { value: Some(Value::Rgb(Rgb { r: rgb.0 as u32, g: rgb.1 as u32, b: rgb.2 as u32 })) },
        ),
        Some(AnsiCode::ColorIndex(idx)) => Some(Color { value: Some(Value::Ansi256(*idx as u32)) }),
        Some(AnsiCode::On) => None,
        Some(AnsiCode::Underline(_)) => None,
    }
}

pub fn ansi_code_to_underline_style(code: &AnsiCode) -> (style: UnderlineStyle)
    ensures
        style == spec_underline(*code),
{
    match code {
        AnsiCode::On => UnderlineStyle::Single,
        AnsiCode::Underline(Some(styled)) => match styled {
            AnsiStyledUnderline::Double => UnderlineStyle::Double,
            AnsiStyledUnderline::Undercurl => UnderlineStyle::Curly,
            AnsiStyledUnderline::Underdotted => UnderlineStyle::Dotted,
            AnsiStyledUnderline::Underdashed => UnderlineStyle::Dashed,
        },
        AnsiCode::Underline(None) => UnderlineStyle::Single,
        _ => UnderlineStyle::NoUnderline,
    }
}

fn switched_on(code: &Option<AnsiCode>) -> (b: bool)
    ensures
        b == is_on(*code),
{
    match code {
        Some(AnsiCode::On) => true,
        _ => false,
    }
}

/// The protocol's style for the multiplexer's styles.
pub fn character_styles_to_style(styles: &CharacterStyles) -> (style: Style)
    ensures
        style == spec_style(*styles),
{
    Style {
        fg: ansi_code_to_color(&styles.foreground),
        bg: ansi_code_to_color(&styles.background),
        bold: switched_on(&styles.bold),
        dim: switched_on(&styles.dim),
        italic: switched_on(&styles.italic),
        reverse: switched_on(&styles.reverse),
        hidden: switched_on(&styles.hidden),
        strike: switched_on(&styles.strike),
        blink_slow: switched_on(&styles.slow_blink),
        blink_fast: switched_on(&styles.fast_blink),
        underline: match &styles.underline {
            Some(code) => ansi_code_to_underline_style(code).code(),
            None => UnderlineStyle::Unspecified.code(),
        },
        underline_color: ansi_code_to_color(&styles.underline_color),
    }
}

/// The id of shared styles, with a cache that remembers ids by where the
/// styles lie in memory.
///
/// What the cache remembers is checked against the table before it is
/// believed, so the id is always the one that the table gives the style; a
/// cache that is out of date costs a lookup and is put right.
pub fn get_cached_style_id(
    styles: &RcCharacterStyles,
    style_table: &mut StyleTable,
    cache: &mut HashMap<usize, u16>,
) -> (id: u16)
    ensures
        final(style_table).wf(),
        (final(style_table)@, id) == StyleTable::spec_get_or_insert(old(style_table)@, spec_style(styles@)),
        exists|key: usize| final(cache)@ == old(cache)@.insert(key, id),
{
    let key = styles.cache_key();
    let style = character_styles_to_style(&styles.styles());
    let cached: Option<u16> = match cache.get(&key) {
        Some(id) => Some(*id),
        None => None,
    };
    match cached {
        Some(id) => {
            let valid = match style_table.get(id) {
                Some(held) => *held == style,
                None => false,
            };
            if valid {
                proof {
                    assert(style_table@[id as int] == style);
                    assert forall|j: int| 0 <= j < id implies style_table@[j] != style by {
                        assert(style_table@[j] != style_table@[id as int]);
                    }
                    lemma_first_index(style_table@, style, id as int);
                    assert(cache@ =~= cache@.insert(key, id));
                }
                return id;
            }
        },
        None => {},
    }
    let id = style_table.get_or_insert(&style);
    cache.insert(key, id);
    id
}

/// The cell for a character in the given styles: the character's code
/// point, its width, and the id of its style, which is interned if the table
/// does not hold it yet.
pub fn character_styles_to_cell(
    character: char,
    width: usize,
    styles: &CharacterStyles,
    style_table: &mut StyleTable,
) -> (cell: Cell)
    ensures
        final(style_table).wf(),
        (final(style_table)@, cell.style_id) == StyleTable::spec_get_or_insert(
            old(style_table)@,
            spec_style(*styles),
        ),
        cell.codepoint == character as u32,
        cell.width == width as u8,
{
    let style = character_styles_to_style(styles);
    let style_id = style_table.get_or_insert(&style);
    Cell { codepoint: character as u32, width: width as u8, style_id }
}

/// The cell for a character of the multiplexer's screen.
pub fn terminal_character_to_cell(tc: &TerminalCharacter, style_table: &mut StyleTable) -> (cell: Cell)
    ensures
        final(style_table).wf(),
        (final(style_table)@, cell.style_id) == StyleTable::spec_get_or_insert(
            old(style_table)@,
            spec_style(tc.styles@),
        ),
        cell.codepoint == tc.character as u32,
        cell.width == tc.width,
{
    character_styles_to_cell(tc.character, tc.width(), &tc.styles.styles(), style_table)
}

} // verus!
