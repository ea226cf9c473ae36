//! Named editing actions, as a platform's key bindings deliver them, and
//! their effect on a buffer.
use vstd::prelude::*;
use vstd::string::StringSliceAdditionalSpecFns;
use vstd::utf8::encode_utf8;
use crate::buffer::TextBuffer;
use crate::model::{self, BufferModel};
use crate::text::bytes_equal;

verus! {

/// An editing action. Motions carry whether they extend the selection.
#[derive(Clone, Copy, Debug, PartialEq, Eq, Structural)]
pub enum EditorAction {
    InsertNewline,
    DeleteBackward,
    DeleteForward,
    MoveLeft(bool),
    MoveRight(bool),
    MoveUp(bool),
    MoveDown(bool),
    MoveToLineStart(bool),
    MoveToLineEnd(bool),
    InsertTab,
    SelectAll,
    CancelOperation,
    /// Copying is the clipboard's work; the buffer is left alone.
    Copy,
    /// The clipboard takes the selected text; the buffer deletes it.
    Cut,
    /// The clipboard later delivers text through `insert_text`.
    Paste,
}

/// An action name without the one trailing colon that selector-style names
/// carry.
pub open spec fn name_core(b: Seq<u8>) -> Seq<u8> {
    if b.len() > 0 && b.last() == 58 {
        b.drop_last()
    } else {
        b
    }
}

/// The action an identifier names.
pub open spec fn action_named(core: Seq<u8>) -> Option<EditorAction> {
    if core == encode_utf8("insertNewline"@) {
        Some(EditorAction::InsertNewline)
    } else if core == encode_utf8("deleteBackward"@) {
        Some(EditorAction::DeleteBackward)
    } else if core == encode_utf8("deleteForward"@) {
        Some(EditorAction::DeleteForward)
    } else if core == encode_utf8("moveLeft"@) {
        Some(EditorAction::MoveLeft(false))
    } else if core == encode_utf8("moveRight"@) {
        Some(EditorAction::MoveRight(false))
    } else if core == encode_utf8("moveUp"@) {
        Some(EditorAction::MoveUp(false))
    } else if core == encode_utf8("moveDown"@) {
        Some(EditorAction::MoveDown(false))
    } else if core == encode_utf8("moveToBeginningOfLine"@) {
        Some(EditorAction::MoveToLineStart(false))
    } else if core == encode_utf8("moveToEndOfLine"@) {
        Some(EditorAction::MoveToLineEnd(false))
    } else if core == encode_utf8("moveLeftAndModifySelection"@) {
        Some(EditorAction::MoveLeft(true))
    } else if core == encode_utf8("moveRightAndModifySelection"@) {
        Some(EditorAction::MoveRight(true))
    } else if core == encode_utf8("moveUpAndModifySelection"@) {
        Some(EditorAction::MoveUp(true))
    } else if core == encode_utf8("moveDownAndModifySelection"@) {
        Some(EditorAction::MoveDown(true))
    } else if core == encode_utf8("moveToBeginningOfLineAndModifySelection"@) {
        Some(EditorAction::MoveToLineStart(true))
    } else if core == encode_utf8("moveToEndOfLineAndModifySelection"@) {
        Some(EditorAction::MoveToLineEnd(true))
    } else if core == encode_utf8("insertTab"@) {
        Some(EditorAction::InsertTab)
    } else if core == encode_utf8("selectAll"@) {
        Some(EditorAction::SelectAll)
    } else if core == encode_utf8("cancelOperation"@) {
        Some(EditorAction::CancelOperation)
    } else if core == encode_utf8("copy"@) {
        Some(EditorAction::Copy)
    } else if core == encode_utf8("cut"@) {
        Some(EditorAction::Cut)
    } else if core == encode_utf8("paste"@) {
        Some(EditorAction::Paste)
    } else {
        None
    }
}

/// What an action does to a buffer.
pub open spec fn apply_spec(m: BufferModel, a: EditorAction) -> BufferModel {
    match a {
        EditorAction::InsertNewline => model::insert_newline(m),
        EditorAction::DeleteBackward => model::delete_backward(m),
        EditorAction::DeleteForward => model::delete_forward(m),
        EditorAction::MoveLeft(x) => model::move_left(m, x),
        EditorAction::MoveRight(x) => model::move_right(m, x),
        EditorAction::MoveUp(x) => model::move_up(m, x),
        EditorAction::MoveDown(x) => model::move_down(m, x),
        EditorAction::MoveToLineStart(x) => model::move_to_line_start(m, x),
        EditorAction::MoveToLineEnd(x) => model::move_to_line_end(m, x),
        EditorAction::InsertTab => model::insert_text(m, encode_utf8(seq![' ', ' '])),
        EditorAction::SelectAll => model::select_all(m),
        EditorAction::CancelOperation => model::cancel_selection(m),
        EditorAction::Copy => m,
        EditorAction::Cut => if model::has_selection(m) {
            model::delete_selection(m)
        } else {
            m
        },
        EditorAction::Paste => m,
    }
}

fn action_from_core(core: &[u8]) -> (r: Option<EditorAction>)
    ensures
        r == action_named(core@),
{
    if bytes_equal(core, "insertNewline".as_bytes()) {
        Some(EditorAction::InsertNewline)
    } else if bytes_equal(core, "deleteBackward".as_bytes()) {
        Some(EditorAction::DeleteBackward)
    } else if bytes_equal(core, "deleteForward".as_bytes()) {
        Some(EditorAction::DeleteForward)
    } else if bytes_equal(core, "moveLeft".as_bytes()) {
        Some(EditorAction::MoveLeft(false))
    } else if bytes_equal(core, "moveRight".as_bytes()) {
        Some(EditorAction::MoveRight(false))
    } else if bytes_equal(core, "moveUp".as_bytes()) {
        Some(EditorAction::MoveUp(false))
    } else if bytes_equal(core, "moveDown".as_bytes()) {
        Some(EditorAction::MoveDown(false))
    } else if bytes_equal(core, "moveToBeginningOfLine".as_bytes()) {
        Some(EditorAction::MoveToLineStart(false))
    } else if bytes_equal(core, "moveToEndOfLine".as_bytes()) {
        Some(EditorAction::MoveToLineEnd(false))
    } else if bytes_equal(core, "moveLeftAndModifySelection".as_bytes()) {
        Some(EditorAction::MoveLeft(true))
    } else if bytes_equal(core, "moveRightAndModifySelection".as_bytes()) {
        Some(EditorAction::MoveRight(true))
    } else if bytes_equal(core, "moveUpAndModifySelection".as_bytes()) {
        Some(EditorAction::MoveUp(true))
    } else if bytes_equal(core, "moveDownAndModifySelection".as_bytes()) {
        Some(EditorAction::MoveDown(true))
    } else if bytes_equal(core, "moveToBeginningOfLineAndModifySelection".as_bytes()) {
        Some(EditorAction::MoveToLineStart(true))
    } else if bytes_equal(core, "moveToEndOfLineAndModifySelection".as_bytes()) {
        Some(EditorAction::MoveToLineEnd(true))
    } else if bytes_equal(core, "insertTab".as_bytes()) {
        Some(EditorAction::InsertTab)
    } else if bytes_equal(core, "selectAll".as_bytes()) {
        Some(EditorAction::SelectAll)
    } else if bytes_equal(core, "cancelOperation".as_bytes()) {
        Some(EditorAction::CancelOperation)
    } else if bytes_equal(core, "copy".as_bytes()) {
        Some(EditorAction::Copy)
    } else if bytes_equal(core, "cut".as_bytes()) {
        Some(EditorAction::Cut)
    } else if bytes_equal(core, "paste".as_bytes()) {
        Some(EditorAction::Paste)
    } else {
        None
    }
}

/// The action that `name` identifies (`moveLeft` or `moveLeft:`), if any.
pub fn action_from_name(name: &str) -> (r: Option<EditorAction>)
    ensures
        r == action_named(name_core(encode_utf8(name@))),
{
    let b = name.as_bytes();
    let n = b.len();
    if n > 0 && b[n - 1] == 58 {
        let mut core: Vec<u8> = Vec::new();
        let mut i: usize = 0;
        while i < n - 1
            invariant
                n == b@.len(),
                n > 0,
                i <= n - 1,
                core@ == b@.subrange(0, i as int),
            decreases n - 1 - i,
        {
            core.push(b[i]);
            i = i + 1;
            assert(core@ =~= b@.subrange(0, i as int));
        }
        assert(core@ =~= b@.drop_last());
        action_from_core(core.as_slice())
    } else {
        action_from_core(b)
    }
}

impl TextBuffer {
    /// Performs an action.
    pub fn apply_action(&mut self, a: EditorAction)
        requires
            old(self).wf(),
        ensures
            final(self).wf(),
            final(self).setup_same(old(self)),
            final(self)@ == apply_spec(old(self)@, a),
    {
        match a {
            EditorAction::InsertNewline => self.insert_newline(),
            EditorAction::DeleteBackward => self.delete_backward(),
            EditorAction::DeleteForward => self.delete_forward(),
            EditorAction::MoveLeft(x) => self.move_left(x),
            EditorAction::MoveRight(x) => self.move_right(x),
            EditorAction::MoveUp(x) => self.move_up(x),
            EditorAction::MoveDown(x) => self.move_down(x),
            EditorAction::MoveToLineStart(x) => self.move_to_beginning_of_line(x),
            EditorAction::MoveToLineEnd(x) => self.move_to_end_of_line(x),
            EditorAction::InsertTab => self.insert_tab(),
            EditorAction::SelectAll => self.select_all(),
            EditorAction::CancelOperation => self.cancel_selection(),
            EditorAction::Copy => {},
            EditorAction::Cut => {
                if self.has_selection() {
                    self.delete_selection();
                }
            },
            EditorAction::Paste => {},
        }
    }

    /// Performs the action that `name` identifies and returns it; an unknown
    /// name changes nothing.
    pub fn handle_action(&mut self, name: &str) -> (r: Option<EditorAction>)
        requires
            old(self).wf(),
        ensures
            final(self).wf(),
            final(self).setup_same(old(self)),
            r == action_named(name_core(encode_utf8(name@))),
            r is None ==> final(self)@ == old(self)@,
            r matches Some(a) ==> final(self)@ == apply_spec(old(self)@, a),
    {
        let a = action_from_name(name);
        match a {
            Some(x) => self.apply_action(x),
            None => {},
        }
        a
    }
}

} // verus!
