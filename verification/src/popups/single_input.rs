//! The dialog that edits one line of text: a frame's text or a file name.

use vstd::prelude::*;
use crate::actions::{Action, Key};
use crate::popups::{edit_line, edited, PopupData};
use crate::state::AppEvent;
use crate::text::{chars_of, string_of};

verus! {

/// A one-line editor opened on a field.
pub struct SingleInput {
    /// What is being edited: a frame id, or the word for the file name.
    pub text: String,
    /// The field's value when the dialog opened.
    pub content: String,
    /// The line as edited so far.
    pub input: Vec<char>,
    /// Where the next character goes, counted in characters.
    pub cursor_pos: usize,
}

/// What one key does to the dialog: escape closes it, enter closes it and
/// hands back the line, every other key edits the line.
pub open spec fn stepped(
    before: SingleInput,
    key: Key,
    after: SingleInput,
    event: AppEvent,
) -> bool {
    &&& after.text == before.text
    &&& after.content == before.content
    &&& match key {
        Key::Esc => event is ClosePopup && after.input == before.input && after.cursor_pos
            == before.cursor_pos,
        Key::Enter => after.input == before.input && after.cursor_pos == before.cursor_pos && (
        event matches AppEvent::ClosePopupData(PopupData::SingleInput(t)) && t@ == before.input@),
        _ => event is NoOp && (after.input@, after.cursor_pos as int) == edited(
            before.input@,
            before.cursor_pos as int,
            key,
        ),
    }
}

impl SingleInput {
    /// The cursor stands within the line or right behind it.
    pub open spec fn wf(&self) -> bool {
        self.cursor_pos <= self.input@.len()
    }

    /// A dialog on the field named `text`, holding `input`, with the cursor
    /// behind the last character.
    pub fn new(text: &str, input: &str) -> (r: Self)
        ensures
            r.wf(),
            r.text@ == text@,
            r.content@ == input@,
            r.input@ == input@,
            r.cursor_pos == input@.len(),
    {
        let line = chars_of(input);
        let cursor_pos = line.len();
        Self {
            text: String::from_str(text),
            content: String::from_str(input),
            input: line,
            cursor_pos,
        }
    }

    /// Moves the cursor one character right, unless it stands at the end.
    pub fn increment_cursor_pos(&mut self)
        requires
            old(self).wf(),
        ensures
            final(self).wf(),
            (final(self).input@, final(self).cursor_pos as int) == edited(
                old(self).input@,
                old(self).cursor_pos as int,
                Key::Right,
            ),
            final(self).text == old(self).text,
            final(self).content == old(self).content,
    {
        edit_line(&mut self.input, &mut self.cursor_pos, Key::Right);
    }

    /// Moves the cursor one character left, unless it stands at the start.
    pub fn decrement_cursor_pos(&mut self)
        requires
            old(self).wf(),
        ensures
            final(self).wf(),
            (final(self).input@, final(self).cursor_pos as int) == edited(
                old(self).input@,
                old(self).cursor_pos as int,
                Key::Left,
            ),
            final(self).text == old(self).text,
            final(self).content == old(self).content,
    {
        edit_line(&mut self.input, &mut self.cursor_pos, Key::Left);
    }

    /// Handles one key press; the resolved action plays no part here.
    pub fn handle_input(&mut self, key: Key, _action: Action) -> (event: AppEvent)
        requires
            old(self).wf(),
        ensures
            final(self).wf(),
            stepped(*old(self), key, *final(self), event),
    {
        match key {
            Key::Esc => AppEvent::ClosePopup,
            Key::Enter => AppEvent::ClosePopupData(PopupData::SingleInput(string_of(&self.input))),
            _ => {
                edit_line(&mut self.input, &mut self.cursor_pos, key);
                AppEvent::NoOp
            },
        }
    }
}

} // verus!
