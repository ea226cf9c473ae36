//! Entries that a host adds to the editor's context menu.
use vstd::prelude::*;

verus! {

/// A context menu entry: its title and the action id it sends.
pub struct ContextMenuItem {
    pub title: String,
    pub action_id: String,
}

impl ContextMenuItem {
    /// An entry with the given title and action id.
    pub fn new(title: &str, action_id: &str) -> (r: ContextMenuItem)
        ensures
            r.title@ == title@,
            r.action_id@ == action_id@,
    {
        ContextMenuItem { title: title.to_owned(), action_id: action_id.to_owned() }
    }
}

} // verus!
