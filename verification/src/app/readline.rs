//! Readline-like line editing that is not tied to a TTY: key presses come in, the edited text and
//! a request to go on or to cancel come out.

use vstd::prelude::*;

verus! {

/// `String::push` appends one character.
pub assume_specification[ String::push ](s: &mut String, ch: char)
    ensures
        final(s)@ == old(s)@.push(ch),
;

/// `String::pop` removes and returns the last character, or returns `None` on an empty string.
pub assume_specification[ String::pop ](s: &mut String) -> (res: Option<char>)
    ensures
        old(s)@.len() == 0 ==> res is None && final(s)@ == old(s)@,
        old(s)@.len() > 0 ==> res == Some(old(s)@.last()) && final(s)@ == old(s)@.drop_last(),
;

/// The modifier keys held during a key press.
#[derive(Copy, Clone)]
pub struct Modifiers {
    pub ctrl: bool,
    pub alt: bool,
    pub shift: bool,
}

impl Default for Modifiers {
    /// No modifier held.
    fn default() -> (res: Self)
        ensures
            !res.ctrl && !res.alt && !res.shift,
    {
        Modifiers { ctrl: false, alt: false, shift: false }
    }
}

/// A key: one that delivers a character, or one of the dedicated editing keys.
#[derive(Copy, Clone)]
pub enum KeyCode {
    Char(char),
    Backspace,
    Escape,
}

/// A key together with the modifiers held while it was pressed.
#[derive(Copy, Clone)]
pub struct KeyPress {
    pub key: KeyCode,
    pub modifiers: Modifiers,
}

/// The result of handling a key press: the editor wants more input, or the user asked to cancel.
#[derive(Debug, PartialEq, Eq)]
pub enum HandleKeyResult {
    MoreInputNeeded,
    Cancel,
}

/// What a key press does to the edited text.
#[derive(Copy, Clone)]
pub enum Action {
    NoOp,
    AppendChar(char),
    Backspace,
    Cancel,
}

/// Whether `c` has the Unicode general category Cc (control): U+0000..=U+001F or
/// U+007F..=U+009F.
pub open spec fn spec_is_control(c: char) -> bool {
    (c as u32) <= 0x1f || (0x7f <= (c as u32) && (c as u32) <= 0x9f)
}

/// Whether `c` is a control character (general category Cc), as `char::is_control` decides.
pub fn is_control(c: char) -> (res: bool)
    ensures
        res == spec_is_control(c),
{
    let v: u32 = c as u32;
    v <= 0x1f || (0x7f <= v && v <= 0x9f)
}

/// The key bindings. The dedicated Backspace and Escape keys erase and cancel whatever the
/// modifiers. Of the character keys, Ctrl+H (without Alt) and the BS control character erase,
/// ETX (Ctrl-C) and ESC cancel, any other combination with Ctrl or Alt does nothing, control
/// characters do nothing, and every other character is appended.
pub open spec fn spec_keypress_to_action(kp: KeyPress) -> Action {
    match kp.key {
        KeyCode::Backspace => Action::Backspace,
        KeyCode::Escape => Action::Cancel,
        KeyCode::Char(ch) => {
            if kp.modifiers.ctrl && !kp.modifiers.alt && ch == 'h' {
                Action::Backspace
            } else if ch == '\u{8}' {
                Action::Backspace
            } else if ch == '\u{3}' || ch == '\u{1b}' {
                Action::Cancel
            } else if kp.modifiers.ctrl || kp.modifiers.alt {
                Action::NoOp
            } else if spec_is_control(ch) {
                Action::NoOp
            } else {
                Action::AppendChar(ch)
            }
        },
    }
}

/// The text after an action: a character is appended, a backspace removes the last character
/// (if any), anything else leaves the text as it is.
pub open spec fn spec_apply_action(text: Seq<char>, action: Action) -> Seq<char> {
    match action {
        Action::AppendChar(ch) => text.push(ch),
        Action::Backspace => if text.len() > 0 {
            text.drop_last()
        } else {
            text
        },
        _ => text,
    }
}

/// What handling an action answers: cancel for a cancel, more input otherwise.
pub open spec fn spec_action_result(action: Action) -> HandleKeyResult {
    match action {
        Action::Cancel => HandleKeyResult::Cancel,
        _ => HandleKeyResult::MoreInputNeeded,
    }
}

/// Whether no character of `text` is a control character.
pub open spec fn is_printable_text(text: Seq<char>) -> bool {
    forall|i: int| 0 <= i < text.len() ==> !spec_is_control(#[trigger] text[i])
}

/// The action that a key press asks for.
pub fn keypress_to_action(kp: &KeyPress) -> (res: Action)
    ensures
        res == spec_keypress_to_action(*kp),
{
    match kp.key {
        KeyCode::Backspace => Action::Backspace,
        KeyCode::Escape => Action::Cancel,
        KeyCode::Char(ch) => {
            // Ctrl+H is the traditional terminal binding for backspace; it has to be checked
            // before the generic Ctrl/Alt filtering below.
            if kp.modifiers.ctrl && !kp.modifiers.alt && ch == 'h' {
                return Action::Backspace;
            }
            if ch == '\u{8}' {
                return Action::Backspace;
            }
            if ch == '\u{3}' {
                return Action::Cancel;
            }
            if ch == '\u{1b}' {
                return Action::Cancel;
            }
            if kp.modifiers.ctrl || kp.modifiers.alt {
                return Action::NoOp;
            }
            // Enter, Tab, Delete and the like deliver a control character; none of them goes
            // into the buffer.
            if is_control(ch) {
                Action::NoOp
            } else {
                Action::AppendChar(ch)
            }
        },
    }
}

/// A line editor: holds the text typed so far.
pub struct Editor {
    text: String,
}

impl View for Editor {
    type V = Seq<char>;

    /// The text typed so far.
    closed spec fn view(&self) -> Seq<char> {
        self.text@
    }
}

impl Editor {
    /// An editor with no text.
    pub fn new() -> (res: Editor)
        ensures
            res@ == Seq::<char>::empty(),
    {
        Editor { text: String::new() }
    }

    /// Handle one key press: change the text as the key bindings say, and answer whether more
    /// input is needed or the user cancelled.
    pub fn handle_key(&mut self, key: &KeyPress) -> (res: HandleKeyResult)
        ensures
            final(self)@ == spec_apply_action(old(self)@, spec_keypress_to_action(*key)),
            res == spec_action_result(spec_keypress_to_action(*key)),
    {
        match keypress_to_action(key) {
            Action::AppendChar(ch) => self.text.push(ch),
            Action::Backspace => {
                let _ = self.text.pop();
            },
            Action::Cancel => {
                return HandleKeyResult::Cancel;
            },
            Action::NoOp => {},
        }
        HandleKeyResult::MoreInputNeeded
    }

    /// The text typed so far.
    pub fn current_text(&self) -> (res: &str)
        ensures
            res@ == self@,
    {
        self.text.as_str()
    }
}

/// The dedicated Escape key cancels and the dedicated Backspace key erases, whatever modifiers
/// are held alongside them.
pub proof fn lemma_dedicated_keys_ignore_modifiers(modifiers: Modifiers)
    ensures
        spec_keypress_to_action(KeyPress { key: KeyCode::Escape, modifiers }) == Action::Cancel,
        spec_keypress_to_action(KeyPress { key: KeyCode::Backspace, modifiers })
            == Action::Backspace,
{
}

/// A key press that asks to cancel never changes the text, whatever was typed before.
pub proof fn lemma_cancel_keeps_text(text: Seq<char>, kp: KeyPress)
    requires
        spec_action_result(spec_keypress_to_action(kp)) == HandleKeyResult::Cancel,
    ensures
        spec_apply_action(text, spec_keypress_to_action(kp)) == text,
{
}

/// Erasing an empty text leaves it empty.
pub proof fn lemma_backspace_on_empty_is_noop()
    ensures
        spec_apply_action(Seq::<char>::empty(), Action::Backspace) == Seq::<char>::empty(),
{
}

/// Typing a character and then erasing gives back the text from before.
pub proof fn lemma_append_then_backspace_restores(text: Seq<char>, ch: char)
    ensures
        spec_apply_action(spec_apply_action(text, Action::AppendChar(ch)), Action::Backspace)
            == text,
{
    assert(text.push(ch).drop_last() =~= text);
}

/// A character with Ctrl or Alt held is never inserted.
pub proof fn lemma_modified_chars_not_inserted(kp: KeyPress)
    requires
        kp.modifiers.ctrl || kp.modifiers.alt,
    ensures
        !(spec_keypress_to_action(kp) is AppendChar),
{
}

/// Shift does not change what a key press does.
pub proof fn lemma_shift_not_filtered(key: KeyCode, ctrl: bool, alt: bool)
    ensures
        spec_keypress_to_action(
            KeyPress { key, modifiers: Modifiers { ctrl, alt, shift: true } },
        ) == spec_keypress_to_action(
            KeyPress { key, modifiers: Modifiers { ctrl, alt, shift: false } },
        ),
{
}

/// No key press ever puts a control character into the text: a text without control
/// characters stays without them.
pub proof fn lemma_text_stays_printable(text: Seq<char>, kp: KeyPress)
    requires
        is_printable_text(text),
    ensures
        is_printable_text(spec_apply_action(text, spec_keypress_to_action(kp))),
{
    let after = spec_apply_action(text, spec_keypress_to_action(kp));
    assert forall|i: int| 0 <= i < after.len() implies !spec_is_control(#[trigger] after[i]) by {
        if i < text.len() {
            assert(after[i] == text[i]);
        }
    }
}

/// Whether `c` is in the Unicode general category Cc, written out by code point.
pub open spec fn is_cc(c: char) -> bool {
    (c as u32) <= 0x1f || (0x7f <= (c as u32) && (c as u32) <= 0x9f)
}

/// A character key carrying ETX (Ctrl-C) or ESC asks to cancel whatever modifiers are held, and
/// leaves the text as it is.
pub proof fn lemma_etx_and_esc_cancel(text: Seq<char>, modifiers: Modifiers)
    ensures
        spec_action_result(
            spec_keypress_to_action(KeyPress { key: KeyCode::Char('\u{3}'), modifiers }),
        ) == HandleKeyResult::Cancel,
        spec_apply_action(
            text,
            spec_keypress_to_action(KeyPress { key: KeyCode::Char('\u{3}'), modifiers }),
        ) == text,
        spec_action_result(
            spec_keypress_to_action(KeyPress { key: KeyCode::Char('\u{1b}'), modifiers }),
        ) == HandleKeyResult::Cancel,
        spec_apply_action(
            text,
            spec_keypress_to_action(KeyPress { key: KeyCode::Char('\u{1b}'), modifiers }),
        ) == text,
{
}

/// The dedicated Escape key cancels and leaves the text as it is, whatever modifiers are held.
pub proof fn lemma_escape_key_cancels(text: Seq<char>, modifiers: Modifiers)
    ensures
        spec_action_result(spec_keypress_to_action(KeyPress { key: KeyCode::Escape, modifiers }))
            == HandleKeyResult::Cancel,
        spec_apply_action(
            text,
            spec_keypress_to_action(KeyPress { key: KeyCode::Escape, modifiers }),
        ) == text,
{
}

/// The dedicated Backspace key and the BS character remove the last character (if any) whatever
/// modifiers are held, and so does Ctrl+H without Alt; none of them cancels.
pub proof fn lemma_erasing_keys(text: Seq<char>, modifiers: Modifiers, shift: bool)
    ensures
        ({
            let erased = if text.len() > 0 {
                text.subrange(0, text.len() - 1)
            } else {
                text
            };
            let bs = KeyPress { key: KeyCode::Backspace, modifiers };
            let bs_char = KeyPress { key: KeyCode::Char('\u{8}'), modifiers };
            let ctrl_h = KeyPress {
                key: KeyCode::Char('h'),
                modifiers: Modifiers { ctrl: true, alt: false, shift },
            };
            &&& spec_apply_action(text, spec_keypress_to_action(bs)) == erased
            &&& spec_apply_action(text, spec_keypress_to_action(bs_char)) == erased
            &&& spec_apply_action(text, spec_keypress_to_action(ctrl_h)) == erased
            &&& spec_action_result(spec_keypress_to_action(bs)) == HandleKeyResult::MoreInputNeeded
            &&& spec_action_result(spec_keypress_to_action(bs_char))
                == HandleKeyResult::MoreInputNeeded
            &&& spec_action_result(spec_keypress_to_action(ctrl_h))
                == HandleKeyResult::MoreInputNeeded
        }),
{
    let erased = if text.len() > 0 {
        text.subrange(0, text.len() - 1)
    } else {
        text
    };
    assert(spec_apply_action(text, Action::Backspace) =~= erased);
}

/// A character that is not in the category Cc, typed without Ctrl and Alt (Shift does not
/// matter), is appended to the text.
pub proof fn lemma_printable_char_appended(text: Seq<char>, ch: char, shift: bool)
    requires
        !is_cc(ch),
    ensures
        ({
            let kp = KeyPress {
                key: KeyCode::Char(ch),
                modifiers: Modifiers { ctrl: false, alt: false, shift },
            };
            &&& spec_apply_action(text, spec_keypress_to_action(kp)) == text.push(ch)
            &&& spec_action_result(spec_keypress_to_action(kp)) == HandleKeyResult::MoreInputNeeded
        }),
{
}

/// A control character other than BS, ETX and ESC, typed without Ctrl and Alt, changes nothing.
pub proof fn lemma_other_control_chars_ignored(text: Seq<char>, ch: char, shift: bool)
    requires
        is_cc(ch),
        ch != '\u{8}',
        ch != '\u{3}',
        ch != '\u{1b}',
    ensures
        ({
            let kp = KeyPress {
                key: KeyCode::Char(ch),
                modifiers: Modifiers { ctrl: false, alt: false, shift },
            };
            &&& spec_apply_action(text, spec_keypress_to_action(kp)) == text
            &&& spec_action_result(spec_keypress_to_action(kp)) == HandleKeyResult::MoreInputNeeded
        }),
{
}

/// Any other character typed with Ctrl or Alt held is an unknown shortcut: it changes nothing and
/// does not cancel.
pub proof fn lemma_unknown_shortcuts_ignored(text: Seq<char>, ch: char, modifiers: Modifiers)
    requires
        modifiers.ctrl || modifiers.alt,
        !(modifiers.ctrl && !modifiers.alt && ch == 'h'),
        ch != '\u{8}',
        ch != '\u{3}',
        ch != '\u{1b}',
    ensures
        spec_apply_action(text, spec_keypress_to_action(KeyPress { key: KeyCode::Char(ch), modifiers }))
            == text,
        spec_action_result(spec_keypress_to_action(KeyPress { key: KeyCode::Char(ch), modifiers }))
            == HandleKeyResult::MoreInputNeeded,
{
}

} // verus!
