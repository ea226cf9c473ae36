//! Text input from a soft keyboard's input method: committed text, and
//! composition in progress.
use vstd::prelude::*;

verus! {

/// An event from the input method.
pub enum InputEvent {
    /// Text committed by the input method.
    CommitText { text: String, new_cursor_position: i32 },
    /// The composition (candidate) text changed.
    SetComposingText { text: String, new_cursor_position: i32 },
    /// Composition finished; its text is committed.
    FinishComposingText,
    /// Text around the cursor is to be deleted; editing commands do that.
    DeleteSurroundingText { before_length: i32, after_length: i32 },
    /// A key forwarded from the soft keyboard; key bindings handle it.
    KeyEvent { key_code: i32, action: i32 },
}

/// Tracks the composition in progress.
pub struct InputHandler {
    composing: bool,
    composition_text: String,
}

impl InputHandler {
    /// Whether a composition is in progress.
    pub closed spec fn spec_composing(&self) -> bool {
        self.composing
    }

    /// The text composed so far.
    pub closed spec fn spec_composition(&self) -> Seq<char> {
        self.composition_text@
    }

    /// A handler with no composition.
    pub fn new() -> (r: InputHandler)
        ensures
            !r.spec_composing(),
            r.spec_composition().len() == 0,
    {
        InputHandler { composing: false, composition_text: String::new() }
    }

    /// Whether a composition is in progress.
    pub fn is_composing(&self) -> (r: bool)
        ensures
            r == self.spec_composing(),
    {
        self.composing
    }

    /// The text composed so far.
    pub fn composition_text(&self) -> (r: &String)
        ensures
            r@ == self.spec_composition(),
    {
        &self.composition_text
    }

    /// Handles an event and returns the text to insert, if any: committed
    /// text, or the composition when it finishes non-empty.
    pub fn process_event(&mut self, event: InputEvent) -> (r: Option<String>)
        ensures
            match event {
                InputEvent::CommitText { text, .. } => {
                    &&& r == Some(text)
                    &&& !final(self).spec_composing()
                    &&& final(self).spec_composition().len() == 0
                },
                InputEvent::SetComposingText { text, .. } => {
                    &&& r is None
                    &&& final(self).spec_composing()
                    &&& final(self).spec_composition() == text@
                },
                InputEvent::FinishComposingText => {
                    &&& !final(self).spec_composing()
                    &&& final(self).spec_composition().len() == 0
                    &&& (old(self).spec_composition().len() == 0 ==> r is None)
                    &&& (old(self).spec_composition().len() > 0 ==> (r matches Some(t) && t@
                        == old(self).spec_composition()))
                },
                _ => r is None && *final(self) == *old(self),
            },
    {
        match event {
            InputEvent::CommitText { text, .. } => {
                self.composing = false;
                self.composition_text = String::new();
                Some(text)
            },
            InputEvent::SetComposingText { text, .. } => {
                self.composing = true;
                self.composition_text = text;
                None
            },
            InputEvent::FinishComposingText => {
                self.composing = false;
                let text = self.composition_text.clone();
                self.composition_text = String::new();
                if text.as_str().is_empty() {
                    None
                } else {
                    Some(text)
                }
            },
            InputEvent::DeleteSurroundingText { .. } => None,
            InputEvent::KeyEvent { .. } => None,
        }
    }

    /// Asks the platform to show the soft keyboard; the platform layer acts.
    pub fn show_keyboard(&self) {
    }

    /// Asks the platform to hide the soft keyboard; the platform layer acts.
    pub fn hide_keyboard(&self) {
    }
}

} // verus!
