//! The three screens and the events that pass between them and the caller.

use vstd::prelude::*;
use crate::actions::{Action, Key};
use crate::logger::{scrolled, Logger};
use crate::popups::PopupData;

pub mod files_state;
pub mod frames_state;
pub mod laws;
pub mod main_state;

verus! {

/// The screen that is shown and receives input.
#[derive(Debug, Clone, Copy, PartialEq, Eq, Structural)]
pub enum ScreenState {
    Main,
    Files,
    Frames,
}

/// Which directory the file browser asks its caller to list.
pub enum DirRequest {
    /// The parent of the current directory; nothing happens at the root.
    Parent,
    /// The directory with this path.
    Enter(String),
    /// The current directory once more.
    Refresh,
}

/// What handling one input leaves for someone else to do.
pub enum AppEvent {
    /// Entries to merge into the main screen's working set.
    AddFiles(Vec<main_state::Entry>),
    /// A frame id to add to the main screen's highlighted and selected
    /// entries.
    AddFrame(String),
    SwitchScreen(ScreenState),
    ClosePopupData(PopupData),
    UpdateConfig,
    ClosePopup,
    Quit,
    /// Files whose tags the caller is to read and hand back as entries.
    LoadFiles(Vec<String>),
    /// A directory the caller is to list and hand back.
    ReadDir(DirRequest),
    /// The caller is to write every entry's tag and name to disk.
    WriteTags,
    NoOp,
}

/// What an action does to the log view.
pub open spec fn logs_applied(
    action: Action,
    shown_before: bool,
    log_before: Logger,
    shown_after: bool,
    log_after: Logger,
) -> bool {
    &&& shown_after == if action == Action::ToggleLogs {
        !shown_before
    } else {
        shown_before
    }
    &&& match action {
        Action::LogsPrev => scrolled(log_before, log_after, false),
        Action::LogsNext => scrolled(log_before, log_after, true),
        _ => log_after == log_before,
    }
}

/// The event that asks for a switch to `screen_state`.
pub fn update_screen_state(screen_state: ScreenState) -> (event: AppEvent)
    ensures
        event == AppEvent::SwitchScreen(screen_state),
{
    AppEvent::SwitchScreen(screen_state)
}

/// The three screens side by side, the one that is shown, and the log view
/// they share.
pub struct Screens {
    pub screen: ScreenState,
    pub main: main_state::MainState,
    pub files: files_state::FilesState,
    pub frames: frames_state::FramesState,
    pub show_logs: bool,
    pub logger: Logger,
}

/// Whether the event is one that the screens settle among themselves.
pub open spec fn is_internal(event: AppEvent) -> bool {
    event is SwitchScreen || event is AddFrame || event is AddFiles
}

/// Whether `b` is `a` after an event has been delivered: a switch changes
/// the shown screen and nothing else, entries are merged into the main
/// screen's working set, a frame is added on the main screen; any other
/// event changes nothing.
pub open spec fn delivered(a: Screens, event: AppEvent, b: Screens) -> bool {
    match event {
        AppEvent::SwitchScreen(s) => b == (Screens { screen: s, ..a }),
        AppEvent::AddFiles(entries) => b == (Screens { main: b.main, ..a }) && b.main.files@
            == main_state::merged(a.main.files@, entries@) && b.main == (main_state::MainState {
            files: b.main.files,
            ..a.main
        }),
        AppEvent::AddFrame(id) => b == (Screens { main: b.main, ..a }) && (crate::tag::is_frame_id(
            id@,
        ) ==> main_state::changed_and_refreshed(
            a.main,
            b.main,
            main_state::inserts(main_state::fresh_frame(id@)),
        )) && (!crate::tag::is_frame_id(id@) ==> b.main == a.main),
        _ => b == a,
    }
}

/// Whether `b` is `a` after the screen that is shown has taken a key press
/// and raised `raised`; the other two screens are as they were.
pub open spec fn shown_stepped(
    a: Screens,
    key: Key,
    candidates: Seq<Action>,
    b: Screens,
    raised: AppEvent,
) -> bool {
    &&& b.screen == a.screen
    &&& match a.screen {
        ScreenState::Main => b.files == a.files && b.frames == a.frames && main_state::main_handled(
            a.main,
            key,
            candidates,
            a.show_logs,
            a.logger,
            b.main,
            b.show_logs,
            b.logger,
            raised,
        ),
        ScreenState::Files => b.main == a.main && b.frames == a.frames
            && files_state::files_handled(
            a.files,
            key,
            candidates,
            a.show_logs,
            a.logger,
            b.files,
            b.show_logs,
            b.logger,
            raised,
        ),
        ScreenState::Frames => b.main == a.main && b.files == a.files
            && frames_state::frames_handled(
            a.frames,
            key,
            candidates,
            a.show_logs,
            a.logger,
            b.frames,
            b.show_logs,
            b.logger,
            raised,
        ),
    }
}

/// Whether `b` and `event` are what becomes of `a` and the event `raised`
/// by a screen: an event that the screens settle among themselves is
/// delivered and the caller sees none; any other is passed on.
pub open spec fn routed(a: Screens, raised: AppEvent, b: Screens, event: AppEvent) -> bool {
    if is_internal(raised) {
        delivered(a, raised, b) && event is NoOp
    } else {
        b == a && event == raised
    }
}

/// What one key press does to the screens.
pub open spec fn input_handled(
    a: Screens,
    key: Key,
    candidates: Seq<Action>,
    b: Screens,
    event: AppEvent,
) -> bool {
    exists|mid: Screens, raised: AppEvent| #[trigger]
        shown_stepped(a, key, candidates, mid, raised) && routed(mid, raised, b, event)
}

impl Screens {
    /// Every screen and the log are in order.
    pub open spec fn wf(&self) -> bool {
        &&& self.main.wf()
        &&& self.files.wf()
        &&& self.frames.wf()
        &&& self.logger.wf()
    }

    /// The three screens around a file browser, with the main screen shown
    /// and the log visible.
    pub fn new(files: files_state::FilesState) -> (r: Self)
        requires
            files.wf(),
        ensures
            r.wf(),
            r.screen == ScreenState::Main,
            r.files == files,
            r.show_logs,
            main_state::is_fresh(r.main),
            r.frames.frames_state == Some(0usize),
            r.frames.popup_stack@.len() == 0,
            r.frames.help_text@.len() == 0,
            r.logger.items@.len() == 0,
            r.logger.index == 0,
    {
        Screens {
            screen: ScreenState::Main,
            main: main_state::MainState::new(),
            files,
            frames: frames_state::FramesState::new(),
            show_logs: true,
            logger: Logger::new(),
        }
    }

    /// Takes in an event that a screen or the caller has raised. Switching
    /// screens leaves every screen's state as it is.
    pub fn deliver(&mut self, event: AppEvent)
        requires
            old(self).wf(),
        ensures
            final(self).wf(),
            delivered(*old(self), event, *final(self)),
    {
        match event {
            AppEvent::SwitchScreen(s) => {
                self.screen = s;
            },
            AppEvent::AddFiles(entries) => {
                self.main.add_files(entries);
            },
            AppEvent::AddFrame(id) => {
                self.main.add_frame(id.as_str());
            },
            _ => {},
        }
    }

    /// Hands one key press to the screen that is shown, and nothing to the
    /// other two. A switch of screens or a frame to add is settled at once
    /// and the caller sees no event; what only the caller can do (quit, read
    /// a directory, load files, write tags) comes back as the event.
    pub fn handle_input(&mut self, key: Key, actions: &Vec<Action>) -> (event: AppEvent)
        requires
            old(self).wf(),
        ensures
            final(self).wf(),
            input_handled(*old(self), key, actions@, *final(self), event),
    {
        let ghost before = *self;
        let raised = match self.screen {
            ScreenState::Main => self.main.handle_input(
                key,
                actions,
                &mut self.show_logs,
                &mut self.logger,
            ),
            ScreenState::Files => self.files.handle_input(
                key,
                actions,
                &mut self.show_logs,
                &mut self.logger,
            ),
            ScreenState::Frames => self.frames.handle_input(
                key,
                actions,
                &mut self.show_logs,
                &mut self.logger,
            ),
        };
        let ghost mid = *self;
        assert(shown_stepped(before, key, actions@, mid, raised));
        match raised {
            AppEvent::SwitchScreen(s) => {
                self.screen = s;
                assert(routed(mid, raised, *self, AppEvent::NoOp));
                AppEvent::NoOp
            },
            AppEvent::AddFrame(id) => {
                self.main.add_frame(id.as_str());
                assert(routed(mid, raised, *self, AppEvent::NoOp));
                AppEvent::NoOp
            },
            AppEvent::AddFiles(entries) => {
                self.main.add_files(entries);
                assert(routed(mid, raised, *self, AppEvent::NoOp));
                AppEvent::NoOp
            },
            other => {
                assert(routed(mid, raised, *self, other));
                other
            },
        }
    }
}

} // verus!
