//! The screen that lists the supported kinds of frame and adds one of them
//! to the files on the main screen.

use vstd::prelude::*;
use crate::actions::{
    help_line_of, help_ready, resolve, resolved, Action, Key, KeyBindings, Scope,
};
use crate::frame_data::{supported_frame, supported_id, SUPPORTED_FRAME_COUNT};
use crate::logger::Logger;
use crate::popups::help::HelpPopup;
use crate::rename::string_views;
use crate::popups::{popup_stepped, Popup};
use crate::state::main_state::moved;
use crate::state::{logs_applied, update_screen_state, AppEvent, ScreenState};

verus! {

/// The list of supported frame kinds and its highlight.
pub struct FramesState {
    pub popup_stack: Vec<Popup>,
    /// The highlighted kind.
    pub frames_state: Option<usize>,
    pub help_text: Vec<String>,
}

/// Whether `b` is `a` with the given help page opened on top.
pub open spec fn frames_help_spawned(a: FramesState, b: FramesState, page: HelpPopup) -> bool {
    &&& b == (FramesState { popup_stack: b.popup_stack, ..a })
    &&& b.popup_stack@ == a.popup_stack@.push(Popup::Help(page))
}

/// What a key press does to the screen while a dialog is open: the top
/// dialog takes it, and leaves the stack if it closes.
pub open spec fn frames_popup_handled(
    a: FramesState,
    key: Key,
    action: Action,
    b: FramesState,
    event: AppEvent,
) -> bool {
    exists|q: Popup, ev: AppEvent| #[trigger]
        popup_stepped(a.popup_stack@.last(), key, action, q, ev) && b == (FramesState {
            popup_stack: b.popup_stack,
            ..a
        }) && match ev {
            AppEvent::ClosePopup => event is NoOp && b.popup_stack@ == a.popup_stack@.drop_last(),
            AppEvent::SwitchScreen(s) => event == AppEvent::SwitchScreen(s) && b.popup_stack@
                == a.popup_stack@.update(a.popup_stack@.len() - 1, q),
            _ => event is NoOp && b.popup_stack@ == a.popup_stack@.update(
                a.popup_stack@.len() - 1,
                q,
            ),
        }
}

/// What an action does to the screen and asks of its caller when no dialog
/// is open.
pub open spec fn frames_action_applied(
    a: FramesState,
    action: Action,
    b: FramesState,
    event: AppEvent,
) -> bool {
    match action {
        Action::Quit => event is Quit && b == a,
        Action::ScreenOne => event == AppEvent::SwitchScreen(ScreenState::Main) && b == a,
        Action::ScreenTwo => event == AppEvent::SwitchScreen(ScreenState::Files) && b == a,
        Action::ScreenThree => event == AppEvent::SwitchScreen(ScreenState::Frames) && b == a,
        Action::Help => event is NoOp && b == (FramesState { popup_stack: b.popup_stack, ..a })
            && b.popup_stack@.len() == a.popup_stack@.len() + 1 && b.popup_stack@.drop_last()
            == a.popup_stack@ && (b.popup_stack@.last() matches Popup::Help(h) && h.title@
            == "Frames Help"@ && h.data@ == a.help_text@),
        Action::Prev => event is NoOp && b == (FramesState {
            frames_state: moved(a.frames_state, SUPPORTED_FRAME_COUNT as nat, false),
            ..a
        }),
        Action::Next => event is NoOp && b == (FramesState {
            frames_state: moved(a.frames_state, SUPPORTED_FRAME_COUNT as nat, true),
            ..a
        }),
        Action::AddFrame => b == a && match a.frames_state {
            Some(i) => event matches AppEvent::AddFrame(id) && id@ == supported_id(i as int),
            None => event is NoOp,
        },
        _ => event is NoOp && b == a,
    }
}

/// What one key press, bound to the actions `candidates`, does to the
/// screen and to the log view, and what it leaves for the caller. With a
/// dialog open the top dialog takes the key and the log view stays; else
/// the action that the press resolves to is carried out.
pub open spec fn frames_handled(
    a: FramesState,
    key: Key,
    candidates: Seq<Action>,
    shown_before: bool,
    log_before: Logger,
    b: FramesState,
    shown_after: bool,
    log_after: Logger,
    event: AppEvent,
) -> bool {
    if a.popup_stack@.len() > 0 {
        &&& frames_popup_handled(a, key, resolved(candidates, Scope::Frames), b, event)
        &&& shown_after == shown_before
        &&& log_after == log_before
    } else {
        &&& frames_action_applied(a, resolved(candidates, Scope::Frames), b, event)
        &&& logs_applied(
            resolved(candidates, Scope::Frames),
            shown_before,
            log_before,
            shown_after,
            log_after,
        )
    }
}

impl FramesState {
    /// The highlight points at a supported kind, and every open dialog is
    /// in order.
    pub open spec fn wf(&self) -> bool {
        &&& self.frames_state matches Some(i) ==> i < SUPPORTED_FRAME_COUNT
        &&& forall|k: int|
            0 <= k < self.popup_stack@.len() ==> (#[trigger] self.popup_stack@[k]).wf()
    }

    /// The screen with the first kind highlighted.
    pub fn new() -> (r: Self)
        ensures
            r.wf(),
            r.frames_state == Some(0usize),
            r.popup_stack@.len() == 0,
            r.help_text@.len() == 0,
    {
        Self { popup_stack: Vec::new(), frames_state: Some(0), help_text: Vec::new() }
    }

    /// Moves the highlight one kind down, wrapping at the end.
    pub fn next(&mut self)
        requires
            old(self).wf(),
        ensures
            final(self).wf(),
            *final(self) == (FramesState {
                frames_state: moved(old(self).frames_state, SUPPORTED_FRAME_COUNT as nat, true),
                ..*old(self)
            }),
    {
        let i = match self.frames_state {
            Some(i) => crate::util::next(i, SUPPORTED_FRAME_COUNT),
            None => 0,
        };
        self.frames_state = Some(i);
    }

    /// Moves the highlight one kind up, wrapping at the start.
    pub fn prev(&mut self)
        requires
            old(self).wf(),
        ensures
            final(self).wf(),
            *final(self) == (FramesState {
                frames_state: moved(old(self).frames_state, SUPPORTED_FRAME_COUNT as nat, false),
                ..*old(self)
            }),
    {
        let i = match self.frames_state {
            Some(i) => crate::util::prev(i, SUPPORTED_FRAME_COUNT),
            None => 0,
        };
        self.frames_state = Some(i);
    }

    /// The id of the highlighted kind.
    pub fn frame_id(&self) -> (id: Option<&'static str>)
        requires
            self.wf(),
        ensures
            match self.frames_state {
                Some(i) => id matches Some(s) && s@ == supported_id(i as int),
                None => id is None,
            },
    {
        match self.frames_state {
            Some(i) => Some(supported_frame(i).id),
            None => None,
        }
    }

    /// The dialog that receives input, if one is open.
    pub fn popup_widget(&self) -> (r: Option<&Popup>)
        ensures
            match r {
                Some(p) => self.popup_stack@.len() > 0 && *p == self.popup_stack@.last(),
                None => self.popup_stack@.len() == 0,
            },
    {
        let n = self.popup_stack.len();
        if n == 0 {
            None
        } else {
            Some(&self.popup_stack[n - 1])
        }
    }

    /// Opens a help page.
    pub fn spawn_help_popup(&mut self, help_popup: HelpPopup)
        requires
            old(self).wf(),
        ensures
            final(self).wf(),
            frames_help_spawned(*old(self), *final(self), help_popup),
    {
        self.popup_stack.push(Popup::Help(help_popup));
    }

    /// Handles one key press, given every action the key is bound to. With
    /// a dialog open the top dialog takes the key; else the action that the
    /// press resolves to is carried out. Adding a frame is left to the
    /// caller, as the event says.
    pub fn handle_input(
        &mut self,
        key: Key,
        actions: &Vec<Action>,
        show_logs: &mut bool,
        logger: &mut Logger,
    ) -> (event: AppEvent)
        requires
            old(self).wf(),
        ensures
            final(self).wf(),
            old(logger).wf() ==> final(logger).wf(),
            frames_handled(
                *old(self),
                key,
                actions@,
                *old(show_logs),
                *old(logger),
                *final(self),
                *final(show_logs),
                *final(logger),
                event,
            ),
    {
        let action = resolve(actions, Scope::Frames);
        let n = self.popup_stack.len();
        if n > 0 {
            let ghost top = self.popup_stack@[n - 1];
            assert(top == old(self).popup_stack@.last());
            let ev = self.popup_stack[n - 1].handle_input(key, action);
            let ghost q = self.popup_stack@[n - 1];
            assert(popup_stepped(top, key, action, q, ev));
            assert(self.popup_stack@ =~= old(self).popup_stack@.update(n - 1, q));
            match ev {
                AppEvent::ClosePopup => {
                    self.popup_stack.pop();
                    assert(self.popup_stack@ =~= old(self).popup_stack@.drop_last());
                    AppEvent::NoOp
                },
                AppEvent::SwitchScreen(s) => update_screen_state(s),
                _ => AppEvent::NoOp,
            }
        } else {
            match action {
                Action::Quit => AppEvent::Quit,
                Action::ScreenOne => update_screen_state(ScreenState::Main),
                Action::ScreenTwo => update_screen_state(ScreenState::Files),
                Action::ScreenThree => update_screen_state(ScreenState::Frames),
                Action::ToggleLogs => {
                    *show_logs = !*show_logs;
                    AppEvent::NoOp
                },
                Action::LogsPrev => {
                    logger.prev();
                    AppEvent::NoOp
                },
                Action::LogsNext => {
                    logger.next();
                    AppEvent::NoOp
                },
                Action::Help => {
                    let page = HelpPopup::new(
                        String::from_str("Frames Help"),
                        self.help_text.clone(),
                    );
                    self.spawn_help_popup(page);
                    proof {
                        assert(self.popup_stack@.drop_last() =~= old(self).popup_stack@);
                    }
                    AppEvent::NoOp
                },
                Action::Prev => {
                    self.prev();
                    AppEvent::NoOp
                },
                Action::Next => {
                    self.next();
                    AppEvent::NoOp
                },
                Action::AddFrame => match self.frame_id() {
                    Some(id) => AppEvent::AddFrame(String::from_str(id)),
                    None => AppEvent::NoOp,
                },
                _ => AppEvent::NoOp,
            }
        }
    }
}

impl FramesState {
    /// Rewrites the help page from the keys that the actions are bound to.
    pub fn update_help_text(&mut self, config: &KeyBindings)
        requires
            help_ready(config.pairs@, Action::Quit),
            help_ready(config.pairs@, Action::AddFrame),
        ensures
            *final(self) == (FramesState { help_text: final(self).help_text, ..*old(self) }),
            string_views(final(self).help_text@) == seq![
                help_line_of(config.pairs@, Action::Quit, "Quit"@),
                help_line_of(config.pairs@, Action::AddFrame, "Add selected frame"@),
            ],
    {
        let mut lines: Vec<String> = Vec::new();
        lines.push(config.help_line_for(Action::Quit, "Quit"));
        lines.push(config.help_line_for(Action::AddFrame, "Add selected frame"));
        proof {
            assert(string_views(lines@) =~= seq![
                help_line_of(config.pairs@, Action::Quit, "Quit"@),
                help_line_of(config.pairs@, Action::AddFrame, "Add selected frame"@),
            ]);
        }
        self.help_text = lines;
    }
}

} // verus!
