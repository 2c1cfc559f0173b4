use wlprompt::gui::keyboard;
use wlprompt::gui::wayline::{Editor, KeyPress};

/// Raw keysym values of the keys the tests name; they are not used by the editor.
const KEYSYM_TAB: u32 = 0xff09;
const KEYSYM_LEFT: u32 = 0xff51;

/// Modifiers with Ctrl, Alt, Shift and Logo set as given.
fn mods(ctrl: bool, alt: bool, shift: bool, logo: bool) -> keyboard::Modifiers {
    keyboard::Modifiers { ctrl, alt, shift, logo, ..keyboard::Modifiers::default() }
}

/// A key press entering `text` with the given modifiers.
fn key_with(text: &str, modifiers: keyboard::Modifiers) -> KeyPress {
    KeyPress {
        modifiers,
        key_event: keyboard::KeyEvent {
            utf8: Some(text.to_string()),
            time: 42,
            raw_code: 42,
            keysym: KEYSYM_TAB,
        },
    }
}

/// A key press entering `text` with no modifier held.
fn key(text: &str) -> KeyPress {
    key_with(text, keyboard::Modifiers::default())
}

#[test]
fn wayline_test_basic_text_appended() {
    let mut e = Editor::new();
    assert_eq!(e.handle_key(&key("h")), "h");
    assert_eq!(e.handle_key(&key("i")), "hi");
}

#[test]
fn wayline_test_unknown_combinations_ignored() {
    let mut e = Editor::new();
    assert_eq!(e.handle_key(&key("a")), "a");
    assert_eq!(e.handle_key(&key("b")), "ab");
    assert_eq!(e.handle_key(&key_with("c", mods(true, false, false, false))), "ab");
    assert_eq!(e.handle_key(&key_with("c", mods(false, true, false, false))), "ab");
    assert_eq!(e.handle_key(&key_with("c", mods(false, false, false, true))), "ab");
}

#[test]
fn test_non_character_keys_ignored() {
    let mut e = Editor::new();
    e.handle_key(&key("a"));
    let press = KeyPress {
        modifiers: keyboard::Modifiers::default(),
        key_event: keyboard::KeyEvent { utf8: None, time: 42, raw_code: 42, keysym: KEYSYM_LEFT },
    };
    assert_eq!(e.handle_key(&press), "a");
}

#[test]
fn wayline_test_shift_not_filtered() {
    let mut e = Editor::new();
    assert_eq!(e.handle_key(&key("a")), "a");
    assert_eq!(e.handle_key(&key_with("B", mods(false, false, true, false))), "aB");
}

#[test]
fn wayline_test_multiple_modifiers_ignored() {
    let mut e = Editor::new();
    assert_eq!(e.handle_key(&key("a")), "a");
    assert_eq!(e.handle_key(&key_with("x", mods(true, true, false, false))), "a");
    assert_eq!(e.handle_key(&key_with("x", mods(true, false, false, true))), "a");
    assert_eq!(e.handle_key(&key_with("x", mods(true, true, false, true))), "a");
}

#[test]
fn wayline_test_special_characters() {
    let mut e = Editor::new();
    assert_eq!(e.handle_key(&key(" ")), " ");
    assert_eq!(e.handle_key(&key("!")), " !");
    assert_eq!(e.handle_key(&key("ñ")), " !ñ");
    assert_eq!(e.handle_key(&key("日")), " !ñ日");
}

#[test]
fn wayline_test_new_editor_is_empty() {
    let mut e = Editor::new();
    let press = KeyPress {
        modifiers: keyboard::Modifiers::default(),
        key_event: keyboard::KeyEvent { utf8: None, time: 42, raw_code: 42, keysym: KEYSYM_TAB },
    };
    assert_eq!(e.handle_key(&press), "");
}

#[test]
fn test_multi_char_utf8_event() {
    let mut e = Editor::new();
    assert_eq!(e.handle_key(&key("abc")), "abc");
    assert_eq!(e.handle_key(&key("d")), "abcd");
}

#[test]
fn wayline_test_control_characters_ignored() {
    let mut e = Editor::new();
    assert_eq!(e.handle_key(&key("a")), "a");
    assert_eq!(e.handle_key(&key("\r")), "a");
    assert_eq!(e.handle_key(&key("\n")), "a");
    assert_eq!(e.handle_key(&key("\t")), "a");
    assert_eq!(e.handle_key(&key("\u{1b}")), "a");
    assert_eq!(e.handle_key(&key("\u{8}")), "a");
    assert_eq!(e.handle_key(&key("\u{7f}")), "a");
    assert_eq!(e.handle_key(&key("b")), "ab");
}
