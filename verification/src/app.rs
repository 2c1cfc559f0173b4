//! The business logic of the prompt: read the input, and tell the user interface what to show.

pub mod readline;

use vstd::prelude::*;

pub use readline::{KeyCode, KeyPress, Modifiers};

verus! {

/// What the user interface should do after a key press.
#[derive(Debug, PartialEq, Eq)]
pub enum HandleKeyResult {
    MoreInputNeeded,
    Cancel,
}

/// The prompt: the command line being typed.
pub struct App {
    editor: readline::Editor,
}

impl View for App {
    type V = Seq<char>;

    /// The command line typed so far.
    closed spec fn view(&self) -> Seq<char> {
        self.editor@
    }
}

/// The answer of the editor, passed on to the user interface.
pub open spec fn spec_app_result(res: readline::HandleKeyResult) -> HandleKeyResult {
    match res {
        readline::HandleKeyResult::MoreInputNeeded => HandleKeyResult::MoreInputNeeded,
        readline::HandleKeyResult::Cancel => HandleKeyResult::Cancel,
    }
}

impl App {
    /// A prompt with an empty command line.
    pub fn new() -> (res: Self)
        ensures
            res@ == Seq::<char>::empty(),
    {
        App { editor: readline::Editor::new() }
    }

    /// Handle one key press by the line editor's bindings.
    pub fn handle_key(&mut self, key: &KeyPress) -> (res: HandleKeyResult)
        ensures
            final(self)@ == readline::spec_apply_action(
                old(self)@,
                readline::spec_keypress_to_action(*key),
            ),
            res == spec_app_result(
                readline::spec_action_result(readline::spec_keypress_to_action(*key)),
            ),
    {
        match self.editor.handle_key(key) {
            readline::HandleKeyResult::MoreInputNeeded => HandleKeyResult::MoreInputNeeded,
            readline::HandleKeyResult::Cancel => HandleKeyResult::Cancel,
        }
    }

    /// The command line typed so far.
    pub fn current_text(&self) -> (res: &str)
        ensures
            res@ == self@,
    {
        self.editor.current_text()
    }
}

} // verus!
