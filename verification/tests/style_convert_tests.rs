use std::collections::HashMap;
use zellij_remote::style_convert::{
    character_styles_to_style, get_cached_style_id, terminal_character_to_cell,
};
use zellij_remote::style_table::StyleTable;
use zellij_remote::terminal::{CharacterStyles, RcCharacterStyles, TerminalCharacter};


#[test]
fn test_default_styles_to_style() {
    let style = character_styles_to_style(&CharacterStyles::default());
    assert!(!style.bold);
    assert!(!style.italic);
    assert!(style.fg.is_none());
    assert!(style.bg.is_none());
}

#[test]
fn test_terminal_character_to_cell() {
    let mut style_table = StyleTable::new();
    let tc = TerminalCharacter::new('A');
    let cell = terminal_character_to_cell(&tc, &mut style_table);
    assert_eq!(cell.codepoint, 'A' as u32);
    assert_eq!(cell.width, 1);
}

#[test]
fn test_wide_character_to_cell() {
    let mut style_table = StyleTable::new();
    let tc = TerminalCharacter::new('中');
    let cell = terminal_character_to_cell(&tc, &mut style_table);
    assert_eq!(cell.codepoint, '中' as u32);
    assert_eq!(cell.width, 2);
}

#[test]
fn style_convert_test_style_caching() {
    let mut style_table = StyleTable::new();
    let mut cache = HashMap::new();

    let styles = RcCharacterStyles::default();
    let id1 = get_cached_style_id(&styles, &mut style_table, &mut cache);
    let id2 = get_cached_style_id(&styles, &mut style_table, &mut cache);

    assert_eq!(id1, id2);
}
