use wlprompt::app::KeyCode;
use wlprompt::gui::keyboard;
use wlprompt::gui::wayland::{rgba_to_argb_le_premul, wayland_key_to_editor_key, Rgba};

/// The raw keysym value of the Tab key.
const KEYSYM_TAB: u32 = 0xff09;

#[test]
fn wayland_test_opaque_preserves_channels_in_bgra_order() {
    let got = rgba_to_argb_le_premul(Rgba::new(1, 2, 3, 0xff));
    assert_eq!(got, [3, 2, 1, 0xff]);
}

#[test]
fn wayland_test_fully_transparent_is_all_zero() {
    let got = rgba_to_argb_le_premul(Rgba::new(10, 20, 30, 0));
    assert_eq!(got, [0, 0, 0, 0]);
}

#[test]
fn wayland_test_opaque_primary_colors() {
    assert_eq!(rgba_to_argb_le_premul(Rgba::new(0xff, 0, 0, 0xff)), [0, 0, 0xff, 0xff]);
    assert_eq!(rgba_to_argb_le_premul(Rgba::new(0, 0xff, 0, 0xff)), [0, 0xff, 0, 0xff]);
    assert_eq!(rgba_to_argb_le_premul(Rgba::new(0, 0, 0xff, 0xff)), [0xff, 0, 0, 0xff]);
}

#[test]
fn wayland_test_opaque_black_and_white() {
    assert_eq!(rgba_to_argb_le_premul(Rgba::new(0, 0, 0, 0xff)), [0, 0, 0, 0xff]);
    assert_eq!(
        rgba_to_argb_le_premul(Rgba::new(0xff, 0xff, 0xff, 0xff)),
        [0xff, 0xff, 0xff, 0xff]
    );
}

#[test]
fn wayland_test_half_alpha_premultiplication() {
    assert_eq!(rgba_to_argb_le_premul(Rgba::new(0xff, 0xff, 0xff, 128)), [128, 128, 128, 128]);
    assert_eq!(rgba_to_argb_le_premul(Rgba::new(200, 100, 50, 128)), [25, 50, 100, 128]);
}

/// A key event with the given text. The other fields are not used by
/// `wayland_key_to_editor_key`, so they get arbitrary values.
fn key_event(utf8: Option<&str>) -> keyboard::KeyEvent {
    keyboard::KeyEvent {
        utf8: utf8.map(str::to_owned),
        time: 0,
        raw_code: 0,
        keysym: KEYSYM_TAB,
    }
}

/// Modifiers with just Ctrl, Alt and Shift set as given.
fn mods(ctrl: bool, alt: bool, shift: bool) -> keyboard::Modifiers {
    keyboard::Modifiers { ctrl, alt, shift, ..keyboard::Modifiers::default() }
}

/// The character of a translated key.
fn char_of(key: KeyCode) -> char {
    match key {
        KeyCode::Char(ch) => ch,
        _ => panic!("expected a character key"),
    }
}

#[test]
fn test_none_utf8_returns_none() {
    let ev = key_event(None);
    assert!(wayland_key_to_editor_key(keyboard::Modifiers::default(), &ev).is_none());
}

#[test]
fn test_empty_utf8_returns_none() {
    let ev = key_event(Some(""));
    assert!(wayland_key_to_editor_key(keyboard::Modifiers::default(), &ev).is_none());
}

#[test]
fn test_basic_char_is_translated() {
    let ev = key_event(Some("a"));
    let got = wayland_key_to_editor_key(keyboard::Modifiers::default(), &ev)
        .expect("expected a translated key");
    assert_eq!(char_of(got.key), 'a');
    assert!(!got.modifiers.ctrl);
    assert!(!got.modifiers.alt);
    assert!(!got.modifiers.shift);
}

#[test]
fn test_all_modifiers_are_copied() {
    let ev = key_event(Some("x"));
    let got = wayland_key_to_editor_key(mods(true, true, true), &ev)
        .expect("expected a translated key");
    assert_eq!(char_of(got.key), 'x');
    assert!(got.modifiers.ctrl);
    assert!(got.modifiers.alt);
    assert!(got.modifiers.shift);
}

#[test]
fn test_modifiers_are_mapped_independently() {
    let ev = key_event(Some("y"));
    let got = wayland_key_to_editor_key(mods(false, false, true), &ev)
        .expect("expected a translated key");
    assert!(!got.modifiers.ctrl);
    assert!(!got.modifiers.alt);
    assert!(got.modifiers.shift);
}

#[test]
fn test_only_first_char_is_used() {
    let ev = key_event(Some("abc"));
    let got = wayland_key_to_editor_key(keyboard::Modifiers::default(), &ev)
        .expect("expected a translated key");
    assert_eq!(char_of(got.key), 'a');
}

#[test]
fn test_non_ascii_char_is_preserved() {
    let ev = key_event(Some("ñ"));
    let got = wayland_key_to_editor_key(keyboard::Modifiers::default(), &ev)
        .expect("expected a translated key");
    assert_eq!(char_of(got.key), 'ñ');
}
