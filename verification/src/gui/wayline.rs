//! Readline-like text entry fed directly by Wayland key events.

use vstd::prelude::*;

use crate::app::readline::{is_cc, is_control, spec_is_control};
use crate::gui::keyboard;

verus! {

/// A key event with the modifiers that were active while it happened.
pub struct KeyPress {
    pub modifiers: keyboard::Modifiers,
    pub key_event: keyboard::KeyEvent,
}

/// Whether some character of `s` is a control character.
pub open spec fn has_control_char(s: Seq<char>) -> bool {
    exists|i: int| 0 <= i < s.len() && spec_is_control(#[trigger] s[i])
}

/// The text a key press enters: none while Ctrl, Alt or Logo is held, none for a key without
/// text, none for a text that holds a control character (Enter, Tab, Escape, Backspace, ...),
/// and otherwise the key's whole text.
pub open spec fn spec_entered_text(key: KeyPress) -> Option<Seq<char>> {
    if key.modifiers.ctrl || key.modifiers.alt || key.modifiers.logo {
        None
    } else {
        match key.key_event.utf8 {
            Some(s) => if has_control_char(s@) {
                None
            } else {
                Some(s@)
            },
            None => None,
        }
    }
}

/// What a key press does to the text.
pub enum Action<'a> {
    NoOp,
    AppendText(&'a str),
}

/// Whether some character of `s` is a control character.
fn contains_control(s: &str) -> (res: bool)
    ensures
        res == has_control_char(s@),
{
    let n = s.unicode_len();
    let mut i: usize = 0;
    while i < n
        invariant
            n == s@.len(),
            i <= n,
            forall|j: int| 0 <= j < i ==> !spec_is_control(#[trigger] s@[j]),
        decreases n - i,
    {
        if is_control(s.get_char(i)) {
            return true;
        }
        i = i + 1;
    }
    false
}

/// The action a key press asks for.
pub fn keypress_to_action(key: &KeyPress) -> (res: Action<'_>)
    ensures
        match res {
            Action::NoOp => spec_entered_text(*key) is None,
            Action::AppendText(t) => spec_entered_text(*key) == Some(t@),
        },
{
    if key.modifiers.ctrl || key.modifiers.alt || key.modifiers.logo {
        return Action::NoOp;
    }
    match &key.key_event.utf8 {
        Some(ch) => {
            // Enter, Tab, Escape, Backspace and the like deliver a control character; none of
            // them goes into the buffer.
            if contains_control(ch.as_str()) {
                return Action::NoOp;
            }
            Action::AppendText(ch.as_str())
        },
        None => Action::NoOp,
    }
}

/// A line editor fed by Wayland key events.
pub struct Editor {
    text: String,
}

impl View for Editor {
    type V = Seq<char>;

    /// The text typed so far.
    closed spec fn view(&self) -> Seq<char> {
        self.text@
    }
}

impl Editor {
    /// An editor with no text.
    pub fn new() -> (res: Editor)
        ensures
            res@ == Seq::<char>::empty(),
    {
        Editor { text: String::new() }
    }

    /// Handle one key press: append the text it enters, if any, and return the whole text.
    pub fn handle_key(&mut self, key: &KeyPress) -> (res: &str)
        ensures
            final(self)@ == spec_after_key(old(self)@, *key),
            res@ == final(self)@,
    {
        match keypress_to_action(key) {
            Action::AppendText(text) => self.text.append(text),
            Action::NoOp => {},
        }
        self.text.as_str()
    }

    /// The text typed so far.
    pub fn current_text(&self) -> (res: &str)
        ensures
            res@ == self@,
    {
        self.text.as_str()
    }
}

/// The text after a key press: the entered text, if any, appended.
pub open spec fn spec_after_key(text: Seq<char>, key: KeyPress) -> Seq<char> {
    match spec_entered_text(key) {
        Some(t) => text + t,
        None => text,
    }
}

/// With Ctrl, Alt or Logo held, a key press enters nothing.
pub proof fn lemma_shortcuts_enter_nothing(text: Seq<char>, key: KeyPress)
    requires
        key.modifiers.ctrl || key.modifiers.alt || key.modifiers.logo,
    ensures
        spec_after_key(text, key) == text,
{
}

/// Shift, Caps lock and Num lock do not change what a key press enters.
pub proof fn lemma_shift_not_filtered(key: KeyPress, shift: bool, caps_lock: bool, num_lock: bool)
    ensures
        spec_entered_text(
            KeyPress {
                modifiers: keyboard::Modifiers { shift, caps_lock, num_lock, ..key.modifiers },
                key_event: key.key_event,
            },
        ) == spec_entered_text(key),
{
}

/// A key press only ever appends: the text before is a prefix of the text after.
pub proof fn lemma_text_only_grows(text: Seq<char>, key: KeyPress)
    ensures
        spec_after_key(text, key).len() >= text.len(),
        spec_after_key(text, key).subrange(0, text.len() as int) == text,
{
    assert(spec_after_key(text, key).subrange(0, text.len() as int) =~= text);
}

/// No key press puts a control character into the text: a text without control characters
/// stays without them.
pub proof fn lemma_text_stays_printable(text: Seq<char>, key: KeyPress)
    requires
        !has_control_char(text),
    ensures
        !has_control_char(spec_after_key(text, key)),
{
    let after = spec_after_key(text, key);
    if let Some(t) = spec_entered_text(key) {
        assert forall|i: int| 0 <= i < after.len() implies !spec_is_control(#[trigger] after[i]) by {
            if i < text.len() {
                assert(after[i] == text[i]);
            } else {
                assert(after[i] == t[i - text.len()]);
            }
        }
    }
}

/// With no Ctrl, Alt or Logo held, a key whose text holds no character of the category Cc
/// appends its whole text.
pub proof fn lemma_text_without_control_chars_appended(text: Seq<char>, key: KeyPress)
    requires
        !key.modifiers.ctrl,
        !key.modifiers.alt,
        !key.modifiers.logo,
        key.key_event.utf8 is Some,
        forall|i: int|
            0 <= i < key.key_event.utf8->Some_0@.len() ==> !is_cc(
                #[trigger] key.key_event.utf8->Some_0@[i],
            ),
    ensures
        spec_after_key(text, key) == text + key.key_event.utf8->Some_0@,
{
}

/// A key whose text holds a character of the category Cc (Enter, Tab, Escape, Backspace,
/// Delete, ...) changes nothing.
pub proof fn lemma_text_with_control_char_refused(text: Seq<char>, key: KeyPress, i: int)
    requires
        key.key_event.utf8 is Some,
        0 <= i < key.key_event.utf8->Some_0@.len(),
        is_cc(key.key_event.utf8->Some_0@[i]),
    ensures
        spec_after_key(text, key) == text,
{
    assert(spec_is_control(key.key_event.utf8->Some_0@[i]));
}

/// A key without text changes nothing.
pub proof fn lemma_key_without_text_ignored(text: Seq<char>, key: KeyPress)
    requires
        key.key_event.utf8 is None,
    ensures
        spec_after_key(text, key) == text,
{
}

} // verus!
