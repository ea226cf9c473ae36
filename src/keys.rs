//! Key and context-menu bindings: which editing action a key press or a
//! menu command stands for.
use vstd::prelude::*;
use crate::actions::EditorAction;

verus! {

pub const VK_BACK: u16 = 0x08;
pub const VK_TAB: u16 = 0x09;
pub const VK_RETURN: u16 = 0x0D;
pub const VK_ESCAPE: u16 = 0x1B;
pub const VK_END: u16 = 0x23;
pub const VK_HOME: u16 = 0x24;
pub const VK_LEFT: u16 = 0x25;
pub const VK_UP: u16 = 0x26;
pub const VK_RIGHT: u16 = 0x27;
pub const VK_DOWN: u16 = 0x28;
pub const VK_DELETE: u16 = 0x2E;
pub const VK_A: u16 = 0x41;
pub const VK_C: u16 = 0x43;
pub const VK_V: u16 = 0x56;
pub const VK_X: u16 = 0x58;

/// The action bound to a virtual key with the given modifiers. With Ctrl:
/// copy, paste, cut and select all. Without: arrows, Home and End (Shift
/// extends the selection), Backspace, Delete, Return, Tab and Escape;
/// Shift+Tab is unbound.
pub open spec fn key_action(vk: u16, shift: bool, ctrl: bool) -> Option<EditorAction> {
    if ctrl {
        if vk == VK_C {
            Some(EditorAction::Copy)
        } else if vk == VK_V {
            Some(EditorAction::Paste)
        } else if vk == VK_X {
            Some(EditorAction::Cut)
        } else if vk == VK_A {
            Some(EditorAction::SelectAll)
        } else {
            None
        }
    } else if vk == VK_LEFT {
        Some(EditorAction::MoveLeft(shift))
    } else if vk == VK_RIGHT {
        Some(EditorAction::MoveRight(shift))
    } else if vk == VK_UP {
        Some(EditorAction::MoveUp(shift))
    } else if vk == VK_DOWN {
        Some(EditorAction::MoveDown(shift))
    } else if vk == VK_HOME {
        Some(EditorAction::MoveToLineStart(shift))
    } else if vk == VK_END {
        Some(EditorAction::MoveToLineEnd(shift))
    } else if vk == VK_BACK {
        Some(EditorAction::DeleteBackward)
    } else if vk == VK_DELETE {
        Some(EditorAction::DeleteForward)
    } else if vk == VK_RETURN {
        Some(EditorAction::InsertNewline)
    } else if vk == VK_TAB && !shift {
        Some(EditorAction::InsertTab)
    } else if vk == VK_ESCAPE {
        Some(EditorAction::CancelOperation)
    } else {
        None
    }
}

/// The action bound to a virtual key (see `key_action`).
pub fn action_for_key(vk: u16, shift: bool, ctrl: bool) -> (r: Option<EditorAction>)
    ensures
        r == key_action(vk, shift, ctrl),
{
    if ctrl {
        if vk == VK_C {
            Some(EditorAction::Copy)
        } else if vk == VK_V {
            Some(EditorAction::Paste)
        } else if vk == VK_X {
            Some(EditorAction::Cut)
        } else if vk == VK_A {
            Some(EditorAction::SelectAll)
        } else {
            None
        }
    } else if vk == VK_LEFT {
        Some(EditorAction::MoveLeft(shift))
    } else if vk == VK_RIGHT {
        Some(EditorAction::MoveRight(shift))
    } else if vk == VK_UP {
        Some(EditorAction::MoveUp(shift))
    } else if vk == VK_DOWN {
        Some(EditorAction::MoveDown(shift))
    } else if vk == VK_HOME {
        Some(EditorAction::MoveToLineStart(shift))
    } else if vk == VK_END {
        Some(EditorAction::MoveToLineEnd(shift))
    } else if vk == VK_BACK {
        Some(EditorAction::DeleteBackward)
    } else if vk == VK_DELETE {
        Some(EditorAction::DeleteForward)
    } else if vk == VK_RETURN {
        Some(EditorAction::InsertNewline)
    } else if vk == VK_TAB && !shift {
        Some(EditorAction::InsertTab)
    } else if vk == VK_ESCAPE {
        Some(EditorAction::CancelOperation)
    } else {
        None
    }
}

/// A chosen context-menu entry.
#[derive(Clone, Copy, Debug, PartialEq, Eq, Structural)]
pub enum MenuCommand {
    /// A built-in entry.
    Action(EditorAction),
    /// The host's entry at this index.
    Custom(usize),
}

/// First command id of the host's entries.
pub const CUSTOM_MENU_BASE: u32 = 100;

/// The entry a context-menu command id names: 1 cut, 2 copy, 3 paste,
/// 4 select all, and from 100 on the host's entries in order.
pub open spec fn menu_command_spec(id: u32) -> Option<MenuCommand> {
    if id == 1 {
        Some(MenuCommand::Action(EditorAction::Cut))
    } else if id == 2 {
        Some(MenuCommand::Action(EditorAction::Copy))
    } else if id == 3 {
        Some(MenuCommand::Action(EditorAction::Paste))
    } else if id == 4 {
        Some(MenuCommand::Action(EditorAction::SelectAll))
    } else if id >= CUSTOM_MENU_BASE {
        Some(MenuCommand::Custom((id - CUSTOM_MENU_BASE) as usize))
    } else {
        None
    }
}

/// The entry a context-menu command id names.
pub fn menu_command(id: u32) -> (r: Option<MenuCommand>)
    ensures
        r == menu_command_spec(id),
{
    if id == 1 {
        Some(MenuCommand::Action(EditorAction::Cut))
    } else if id == 2 {
        Some(MenuCommand::Action(EditorAction::Copy))
    } else if id == 3 {
        Some(MenuCommand::Action(EditorAction::Paste))
    } else if id == 4 {
        Some(MenuCommand::Action(EditorAction::SelectAll))
    } else if id >= CUSTOM_MENU_BASE {
        Some(MenuCommand::Custom((id - CUSTOM_MENU_BASE) as usize))
    } else {
        None
    }
}

} // verus!
