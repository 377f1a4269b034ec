//! Modal dialogs: what they hand back when they close, the line editor they
//! share, and the dialog stack's element type.

use vstd::prelude::*;
use crate::actions::{Action, Key};
use crate::state::AppEvent;

pub mod double_input;
pub mod help;
pub mod single_input;
pub mod template;

verus! {

/// What a dialog hands to its screen when it closes with a result.
pub enum PopupData {
    SingleInput(String),
    DoubleInput(String, String),
    TemplateInput(String),
}

/// The dialogs that have a help page of their own.
pub enum PopupHelpType {
    DoubleInput,
}

/// The input line after one key: backspace deletes the character before the
/// cursor, left and right move the cursor within the line, a character is
/// inserted at the cursor; any other key changes nothing.
pub open spec fn edited(input: Seq<char>, cursor: int, key: Key) -> (Seq<char>, int) {
    match key {
        Key::Backspace => if cursor > 0 {
            (input.remove(cursor - 1), cursor - 1)
        } else {
            (input, cursor)
        },
        Key::Left => if cursor > 0 {
            (input, cursor - 1)
        } else {
            (input, cursor)
        },
        Key::Right => if cursor < input.len() {
            (input, cursor + 1)
        } else {
            (input, cursor)
        },
        Key::Char(c) => (input.insert(cursor, c), cursor + 1),
        _ => (input, cursor),
    }
}

/// Applies one key to an input line and its cursor.
pub fn edit_line(input: &mut Vec<char>, cursor_pos: &mut usize, key: Key)
    requires
        *old(cursor_pos) <= old(input)@.len(),
    ensures
        (final(input)@, *final(cursor_pos) as int) == edited(
            old(input)@,
            *old(cursor_pos) as int,
            key,
        ),
        *final(cursor_pos) <= final(input)@.len(),
{
    match key {
        Key::Backspace => {
            if *cursor_pos > 0 {
                input.remove(*cursor_pos - 1);
                *cursor_pos = *cursor_pos - 1;
            }
        },
        Key::Left => {
            if *cursor_pos > 0 {
                *cursor_pos = *cursor_pos - 1;
            }
        },
        Key::Right => {
            if *cursor_pos < input.len() {
                *cursor_pos = *cursor_pos + 1;
            }
        },
        Key::Char(c) => {
            input.insert(*cursor_pos, c);
            let len = input.len();
            assert(*cursor_pos < len);
            *cursor_pos = *cursor_pos + 1;
        },
        _ => {},
    }
}

/// What one key press does to a dialog of any kind: the dialog keeps its
/// kind and takes the step that its kind defines. A help page closes on any
/// key.
pub open spec fn popup_stepped(
    before: Popup,
    key: Key,
    action: Action,
    after: Popup,
    event: AppEvent,
) -> bool {
    match before {
        Popup::Help(_) => event is ClosePopup && after == before,
        Popup::SingleInput(p) => after matches Popup::SingleInput(q) && single_input::stepped(
            p,
            key,
            q,
            event,
        ),
        Popup::DoubleInput(p) => after matches Popup::DoubleInput(q) && double_input::stepped(
            p,
            key,
            action,
            q,
            event,
        ),
        Popup::TemplateInput(p) => after matches Popup::TemplateInput(q) && template::stepped(
            p,
            key,
            q,
            event,
        ),
    }
}

/// One dialog on a screen's stack.
pub enum Popup {
    Help(help::HelpPopup),
    SingleInput(single_input::SingleInput),
    DoubleInput(double_input::DoubleInput),
    TemplateInput(template::TemplateInput),
}

impl Popup {
    /// Whether the dialog's own invariant holds.
    pub open spec fn wf(&self) -> bool {
        match self {
            Popup::Help(_) => true,
            Popup::SingleInput(p) => p.wf(),
            Popup::DoubleInput(p) => p.wf(),
            Popup::TemplateInput(p) => p.wf(),
        }
    }

    /// Hands one key press, with the action it resolved to, to the dialog.
    pub fn handle_input(&mut self, key: Key, action: Action) -> (event: AppEvent)
        requires
            old(self).wf(),
        ensures
            final(self).wf(),
            popup_stepped(*old(self), key, action, *final(self), event),
    {
        match self {
            Popup::Help(p) => p.handle_input(key, action),
            Popup::SingleInput(p) => p.handle_input(key, action),
            Popup::DoubleInput(p) => p.handle_input(key, action),
            Popup::TemplateInput(p) => p.handle_input(key, action),
        }
    }
}

} // verus!
