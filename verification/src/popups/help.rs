//! The help dialog: a title and lines of text; any key closes it.

use vstd::prelude::*;
use crate::actions::{Action, Key};
use crate::state::AppEvent;

verus! {

/// A page of help text.
pub struct HelpPopup {
    pub title: String,
    pub data: Vec<String>,
}

impl HelpPopup {
    /// A help page with the given title and lines.
    pub fn new(title: String, data: Vec<String>) -> (r: Self)
        ensures
            r.title == title,
            r.data == data,
    {
        Self { title, data }
    }

    /// Any input closes the help page.
    pub fn handle_input(&mut self, _key: Key, _action: Action) -> (event: AppEvent)
        ensures
            event is ClosePopup,
            *final(self) == *old(self),
    {
        AppEvent::ClosePopup
    }
}

} // verus!
