use wlprompt::app::readline::{Editor, HandleKeyResult, KeyCode, KeyPress, Modifiers};

fn mods(ctrl: bool, alt: bool, shift: bool) -> Modifiers {
    Modifiers { ctrl, alt, shift }
}

/// A character key with no modifier held.
fn key(ch: char) -> KeyPress {
    KeyPress { modifiers: Modifiers::default(), key: KeyCode::Char(ch) }
}

/// A character key with the given modifiers held.
fn key_with(ch: char, modifiers: Modifiers) -> KeyPress {
    KeyPress { modifiers, key: KeyCode::Char(ch) }
}

/// The dedicated Backspace key with the given modifiers held.
fn backspace(modifiers: Modifiers) -> KeyPress {
    KeyPress { modifiers, key: KeyCode::Backspace }
}

/// The dedicated Escape key with the given modifiers held.
fn escape(modifiers: Modifiers) -> KeyPress {
    KeyPress { modifiers, key: KeyCode::Escape }
}

#[test]
fn readline_test_basic_text_appended() {
    let mut e = Editor::new();
    assert_eq!(e.handle_key(&key('h')), HandleKeyResult::MoreInputNeeded);
    assert_eq!(e.current_text(), "h");
    assert_eq!(e.handle_key(&key('i')), HandleKeyResult::MoreInputNeeded);
    assert_eq!(e.current_text(), "hi");
}

#[test]
fn readline_test_unknown_combinations_ignored() {
    let mut e = Editor::new();
    assert_eq!(e.handle_key(&key('a')), HandleKeyResult::MoreInputNeeded);
    assert_eq!(e.current_text(), "a");
    assert_eq!(e.handle_key(&key('b')), HandleKeyResult::MoreInputNeeded);
    assert_eq!(e.current_text(), "ab");
    assert_eq!(
        e.handle_key(&key_with('c', mods(true, false, false))),
        HandleKeyResult::MoreInputNeeded
    );
    assert_eq!(e.current_text(), "ab");
    assert_eq!(
        e.handle_key(&key_with('c', mods(false, true, false))),
        HandleKeyResult::MoreInputNeeded
    );
    assert_eq!(e.current_text(), "ab");
}

#[test]
fn readline_test_shift_not_filtered() {
    let mut e = Editor::new();
    assert_eq!(e.handle_key(&key('a')), HandleKeyResult::MoreInputNeeded);
    assert_eq!(e.current_text(), "a");
    assert_eq!(
        e.handle_key(&key_with('B', mods(false, false, true))),
        HandleKeyResult::MoreInputNeeded
    );
    assert_eq!(e.current_text(), "aB");
}

#[test]
fn readline_test_multiple_modifiers_ignored() {
    let mut e = Editor::new();
    assert_eq!(e.handle_key(&key('a')), HandleKeyResult::MoreInputNeeded);
    assert_eq!(e.current_text(), "a");
    assert_eq!(
        e.handle_key(&key_with('x', mods(true, true, false))),
        HandleKeyResult::MoreInputNeeded
    );
    assert_eq!(e.current_text(), "a");
}

#[test]
fn readline_test_special_characters() {
    let mut e = Editor::new();
    assert_eq!(e.handle_key(&key(' ')), HandleKeyResult::MoreInputNeeded);
    assert_eq!(e.current_text(), " ");
    assert_eq!(e.handle_key(&key('!')), HandleKeyResult::MoreInputNeeded);
    assert_eq!(e.current_text(), " !");
    assert_eq!(e.handle_key(&key('ñ')), HandleKeyResult::MoreInputNeeded);
    assert_eq!(e.current_text(), " !ñ");
    assert_eq!(e.handle_key(&key('日')), HandleKeyResult::MoreInputNeeded);
    assert_eq!(e.current_text(), " !ñ日");
}

#[test]
fn readline_test_new_editor_is_empty() {
    let e = Editor::new();
    assert_eq!(e.current_text(), "");
}

#[test]
fn readline_test_control_characters_ignored() {
    let mut e = Editor::new();
    assert_eq!(e.handle_key(&key('a')), HandleKeyResult::MoreInputNeeded);
    assert_eq!(e.current_text(), "a");
    // Enter, Tab and Delete deliver a control character; none of them ends up in the buffer.
    assert_eq!(e.handle_key(&key('\r')), HandleKeyResult::MoreInputNeeded);
    assert_eq!(e.handle_key(&key('\n')), HandleKeyResult::MoreInputNeeded);
    assert_eq!(e.handle_key(&key('\t')), HandleKeyResult::MoreInputNeeded);
    assert_eq!(e.handle_key(&key('\u{7f}')), HandleKeyResult::MoreInputNeeded);
    assert_eq!(e.current_text(), "a");
    assert_eq!(e.handle_key(&key('b')), HandleKeyResult::MoreInputNeeded);
    assert_eq!(e.current_text(), "ab");
}

#[test]
fn test_bs_control_char_acts_as_backspace() {
    let mut e = Editor::new();
    assert_eq!(e.handle_key(&key('a')), HandleKeyResult::MoreInputNeeded);
    assert_eq!(e.handle_key(&key('b')), HandleKeyResult::MoreInputNeeded);
    assert_eq!(e.current_text(), "ab");
    assert_eq!(e.handle_key(&key('\u{8}')), HandleKeyResult::MoreInputNeeded);
    assert_eq!(e.current_text(), "a");
    assert_eq!(e.handle_key(&key('\u{8}')), HandleKeyResult::MoreInputNeeded);
    assert_eq!(e.current_text(), "");
}

#[test]
fn test_bs_control_char_on_empty_is_noop() {
    let mut e = Editor::new();
    assert_eq!(e.handle_key(&key('\u{8}')), HandleKeyResult::MoreInputNeeded);
    assert_eq!(e.current_text(), "");
}

#[test]
fn test_escape_key_cancels() {
    let mut e = Editor::new();
    assert_eq!(e.handle_key(&escape(Modifiers::default())), HandleKeyResult::Cancel);
}

#[test]
fn test_escape_key_cancels_with_text() {
    let mut e = Editor::new();
    assert_eq!(e.handle_key(&key('a')), HandleKeyResult::MoreInputNeeded);
    assert_eq!(e.handle_key(&key('b')), HandleKeyResult::MoreInputNeeded);
    assert_eq!(e.current_text(), "ab");
    assert_eq!(e.handle_key(&escape(Modifiers::default())), HandleKeyResult::Cancel);
    assert_eq!(e.current_text(), "ab");
}

#[test]
fn test_escape_key_cancels_with_modifiers() {
    let mut e = Editor::new();
    assert_eq!(e.handle_key(&escape(mods(true, false, false))), HandleKeyResult::Cancel);
    assert_eq!(e.handle_key(&escape(mods(false, true, false))), HandleKeyResult::Cancel);
    assert_eq!(e.handle_key(&escape(mods(false, false, true))), HandleKeyResult::Cancel);
    assert_eq!(e.handle_key(&escape(mods(true, true, false))), HandleKeyResult::Cancel);
}

#[test]
fn test_escape_control_char_cancels() {
    let mut e = Editor::new();
    assert_eq!(e.handle_key(&key('a')), HandleKeyResult::MoreInputNeeded);
    assert_eq!(e.current_text(), "a");
    assert_eq!(e.handle_key(&key('\u{1b}')), HandleKeyResult::Cancel);
    assert_eq!(e.current_text(), "a");
}

#[test]
fn test_ctrl_c_control_char_cancels() {
    let mut e = Editor::new();
    assert_eq!(e.handle_key(&key('a')), HandleKeyResult::MoreInputNeeded);
    assert_eq!(e.current_text(), "a");
    assert_eq!(e.handle_key(&key('\u{3}')), HandleKeyResult::Cancel);
    assert_eq!(e.current_text(), "a");
}

#[test]
fn test_ctrl_c_control_char_cancels_on_empty() {
    let mut e = Editor::new();
    assert_eq!(e.handle_key(&key('\u{3}')), HandleKeyResult::Cancel);
    assert_eq!(e.current_text(), "");
}

#[test]
fn test_backspace_key_removes_last_char() {
    let mut e = Editor::new();
    assert_eq!(e.handle_key(&key('a')), HandleKeyResult::MoreInputNeeded);
    assert_eq!(e.handle_key(&key('b')), HandleKeyResult::MoreInputNeeded);
    assert_eq!(e.current_text(), "ab");
    assert_eq!(e.handle_key(&backspace(Modifiers::default())), HandleKeyResult::MoreInputNeeded);
    assert_eq!(e.current_text(), "a");
    assert_eq!(e.handle_key(&backspace(Modifiers::default())), HandleKeyResult::MoreInputNeeded);
    assert_eq!(e.current_text(), "");
}

#[test]
fn test_backspace_on_empty_is_noop() {
    let mut e = Editor::new();
    assert_eq!(e.handle_key(&backspace(Modifiers::default())), HandleKeyResult::MoreInputNeeded);
    assert_eq!(e.current_text(), "");
}

#[test]
fn test_backspace_removes_multibyte_char() {
    let mut e = Editor::new();
    assert_eq!(e.handle_key(&key('a')), HandleKeyResult::MoreInputNeeded);
    assert_eq!(e.handle_key(&key('日')), HandleKeyResult::MoreInputNeeded);
    assert_eq!(e.current_text(), "a日");
    assert_eq!(e.handle_key(&backspace(Modifiers::default())), HandleKeyResult::MoreInputNeeded);
    assert_eq!(e.current_text(), "a");
}

#[test]
fn test_ctrl_h_acts_as_backspace() {
    let mut e = Editor::new();
    assert_eq!(e.handle_key(&key('a')), HandleKeyResult::MoreInputNeeded);
    assert_eq!(e.handle_key(&key('b')), HandleKeyResult::MoreInputNeeded);
    assert_eq!(e.current_text(), "ab");
    assert_eq!(
        e.handle_key(&key_with('h', mods(true, false, false))),
        HandleKeyResult::MoreInputNeeded
    );
    assert_eq!(e.current_text(), "a");
}

#[test]
fn test_plain_h_is_inserted() {
    let mut e = Editor::new();
    assert_eq!(e.handle_key(&key('a')), HandleKeyResult::MoreInputNeeded);
    assert_eq!(e.handle_key(&key('h')), HandleKeyResult::MoreInputNeeded);
    assert_eq!(e.current_text(), "ah");
}

#[test]
fn test_ctrl_alt_h_is_not_backspace() {
    let mut e = Editor::new();
    assert_eq!(e.handle_key(&key('a')), HandleKeyResult::MoreInputNeeded);
    assert_eq!(
        e.handle_key(&key_with('h', mods(true, true, false))),
        HandleKeyResult::MoreInputNeeded
    );
    assert_eq!(e.current_text(), "a");
}

#[test]
fn test_backspace_with_modifiers_still_deletes() {
    let mut e = Editor::new();
    assert_eq!(e.handle_key(&key('a')), HandleKeyResult::MoreInputNeeded);
    assert_eq!(e.handle_key(&key('b')), HandleKeyResult::MoreInputNeeded);
    assert_eq!(e.current_text(), "ab");
    assert_eq!(
        e.handle_key(&backspace(mods(false, false, true))),
        HandleKeyResult::MoreInputNeeded
    );
    assert_eq!(e.current_text(), "a");
}

#[test]
fn test_append_backspace_append() {
    let mut e = Editor::new();
    assert_eq!(e.handle_key(&key('a')), HandleKeyResult::MoreInputNeeded);
    assert_eq!(e.handle_key(&key('b')), HandleKeyResult::MoreInputNeeded);
    assert_eq!(e.handle_key(&key('d')), HandleKeyResult::MoreInputNeeded);
    assert_eq!(e.current_text(), "abd");
    assert_eq!(e.handle_key(&backspace(Modifiers::default())), HandleKeyResult::MoreInputNeeded);
    assert_eq!(e.current_text(), "ab");
    assert_eq!(e.handle_key(&key('c')), HandleKeyResult::MoreInputNeeded);
    assert_eq!(e.current_text(), "abc");
}
