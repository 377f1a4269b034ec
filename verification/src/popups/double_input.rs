//! The dialog that edits a user-defined text frame: a description and a
//! value, one of them at a time.

use vstd::prelude::*;
use crate::actions::{Action, Key};
use crate::popups::{edit_line, edited, PopupData};
use crate::state::AppEvent;
use crate::text::{chars_of, string_of};

verus! {

/// A two-field editor. It is either choosing a field or typing into one.
pub struct DoubleInput {
    pub description: String,
    pub value: String,
    /// The line being typed; empty while a field is being chosen.
    pub input: Vec<char>,
    /// The highlighted field: 0 is the description, 1 the value.
    pub list_state: Option<usize>,
    pub cursor_pos: usize,
    /// Whether keys go to the input line.
    pub input_focused: bool,
}

/// The field highlighted after a step down the two fields.
pub open spec fn field_after_next(selected: Option<usize>) -> Option<usize> {
    match selected {
        Some(i) => if i == 0 {
            Some(1usize)
        } else {
            Some(0usize)
        },
        None => Some(0usize),
    }
}

/// The field highlighted after a step up the two fields.
pub open spec fn field_after_prev(selected: Option<usize>) -> Option<usize> {
    match selected {
        Some(i) => if i == 0 {
            Some(1usize)
        } else {
            Some(0usize)
        },
        None => Some(1usize),
    }
}

/// Whether `after` differs from `before` in nothing but the highlighted
/// field.
pub open spec fn same_but_field(before: DoubleInput, after: DoubleInput) -> bool {
    &&& after.description == before.description
    &&& after.value == before.value
    &&& after.input == before.input
    &&& after.cursor_pos == before.cursor_pos
    &&& after.input_focused == before.input_focused
}

/// One step while a field is being chosen, driven by the resolved action.
pub open spec fn stepped_choosing(
    before: DoubleInput,
    action: Action,
    after: DoubleInput,
    event: AppEvent,
) -> bool {
    match action {
        Action::Back => event is ClosePopup && after == before,
        Action::Prev => event is NoOp && same_but_field(before, after) && after.list_state
            == field_after_prev(before.list_state),
        Action::Next => event is NoOp && same_but_field(before, after) && after.list_state
            == field_after_next(before.list_state),
        Action::SelectField => event is NoOp && after.description == before.description
            && after.value == before.value && after.list_state == before.list_state
            && match before.list_state {
            Some(i) => after.input_focused && after.cursor_pos == after.input@.len() && after.input@
                == (if i == 0 {
                before.description@
            } else {
                before.value@
            }),
            None => after.input == before.input && after.cursor_pos == before.cursor_pos
                && !after.input_focused,
        },
        Action::SaveChanges => after == before && (event matches AppEvent::ClosePopupData(
            PopupData::DoubleInput(d, v),
        ) && d@ == before.description@ && v@ == before.value@),
        _ => event is NoOp && after == before,
    }
}

/// One step while a field is being typed, driven by the key.
pub open spec fn stepped_typing(before: DoubleInput, key: Key, after: DoubleInput) -> bool {
    &&& after.list_state == before.list_state
    &&& match key {
        Key::Esc => after.description == before.description && after.value == before.value
            && after.input@.len() == 0 && after.cursor_pos == 0 && !after.input_focused,
        Key::Enter => after.input@.len() == 0 && after.cursor_pos == 0 && !after.input_focused
            && match before.list_state {
            Some(i) => if i == 0 {
                after.description@ == before.input@ && after.value == before.value
            } else {
                after.value@ == before.input@ && after.description == before.description
            },
            None => false,
        },
        _ => after.description == before.description && after.value == before.value
            && after.input_focused && (after.input@, after.cursor_pos as int) == edited(
            before.input@,
            before.cursor_pos as int,
            key,
        ),
    }
}

/// What one key press does to the dialog.
pub open spec fn stepped(
    before: DoubleInput,
    key: Key,
    action: Action,
    after: DoubleInput,
    event: AppEvent,
) -> bool {
    if before.input_focused {
        event is NoOp && stepped_typing(before, key, after)
    } else {
        stepped_choosing(before, action, after, event)
    }
}

impl DoubleInput {
    /// The cursor stands within the line, the highlighted field is one of
    /// the two, and typing goes to a highlighted field.
    pub open spec fn wf(&self) -> bool {
        &&& self.cursor_pos <= self.input@.len()
        &&& self.list_state matches Some(i) ==> i < 2
        &&& self.input_focused ==> self.list_state is Some
    }

    /// A dialog on the given description and value, with no field
    /// highlighted yet and an empty input line.
    pub fn new(description: &str, value: &str) -> (r: Self)
        ensures
            r.wf(),
            r.description@ == description@,
            r.value@ == value@,
            r.input@.len() == 0,
            r.list_state is None,
            r.cursor_pos == 0,
            !r.input_focused,
    {
        Self {
            input: Vec::new(),
            description: String::from_str(description),
            value: String::from_str(value),
            list_state: None,
            cursor_pos: 0,
            input_focused: false,
        }
    }

    /// Highlights the other field, or the description if none was.
    pub fn next(&mut self)
        requires
            old(self).wf(),
        ensures
            final(self).wf(),
            same_but_field(*old(self), *final(self)),
            final(self).list_state == field_after_next(old(self).list_state),
    {
        self.list_state = match self.list_state {
            Some(i) => if i == 0 {
                Some(1)
            } else {
                Some(0)
            },
            None => Some(0),
        };
    }

    /// Highlights the other field, or the value if none was.
    pub fn prev(&mut self)
        requires
            old(self).wf(),
        ensures
            final(self).wf(),
            same_but_field(*old(self), *final(self)),
            final(self).list_state == field_after_prev(old(self).list_state),
    {
        self.list_state = match self.list_state {
            Some(i) => if i == 0 {
                Some(1)
            } else {
                Some(0)
            },
            None => Some(1),
        };
    }

    /// Handles one key press: the resolved action while a field is being
    /// chosen, the key itself while one is being typed.
    pub fn handle_input(&mut self, key: Key, action: Action) -> (event: AppEvent)
        requires
            old(self).wf(),
        ensures
            final(self).wf(),
            stepped(*old(self), key, action, *final(self), event),
    {
        if !self.input_focused {
            match action {
                Action::Back => {
                    return AppEvent::ClosePopup;
                },
                Action::Prev => self.prev(),
                Action::Next => self.next(),
                Action::SelectField => {
                    if let Some(i) = self.list_state {
                        if i == 0 {
                            self.input = chars_of(self.description.as_str());
                        } else {
                            self.input = chars_of(self.value.as_str());
                        }
                        self.cursor_pos = self.input.len();
                        self.input_focused = true;
                    }
                },
                Action::SaveChanges => {
                    return AppEvent::ClosePopupData(
                        PopupData::DoubleInput(self.description.clone(), self.value.clone()),
                    );
                },
                _ => {},
            }
        } else {
            match key {
                Key::Esc => {
                    self.input.clear();
                    self.cursor_pos = 0;
                    self.input_focused = false;
                },
                Key::Enter => {
                    if let Some(i) = self.list_state {
                        if i == 0 {
                            self.description = string_of(&self.input);
                        } else {
                            self.value = string_of(&self.input);
                        }
                        self.input.clear();
                        self.cursor_pos = 0;
                        self.input_focused = false;
                    }
                },
                _ => {
                    edit_line(&mut self.input, &mut self.cursor_pos, key);
                },
            }
        }
        AppEvent::NoOp
    }
}

} // verus!
