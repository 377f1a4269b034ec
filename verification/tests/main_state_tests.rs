use id3::TagLike;
use rid3::actions::{Action, Key};
use rid3::logger::Logger;
use rid3::popups::Popup;
use rid3::state::main_state::{DetailItem, Entry, Focus, MainState};
use rid3::state::AppEvent;
use rid3::tag::Content;

fn tag_with(frames: &[(&str, &str)]) -> id3::Tag {
    let mut tag = id3::Tag::new();
    for (id, text) in frames {
        tag.add_frame(id3::Frame::text(*id, *text));
    }
    tag
}

fn entry(path: &str, frames: &[(&str, &str)]) -> Entry {
    Entry::new(path.to_string(), tag_with(frames))
}

fn press(state: &mut MainState, action: Action) -> AppEvent {
    let mut show_logs = true;
    let mut logger = Logger::new();
    state.handle_input(Key::Other, &vec![action], &mut show_logs, &mut logger)
}

fn type_key(state: &mut MainState, key: Key) -> AppEvent {
    let mut show_logs = true;
    let mut logger = Logger::new();
    state.handle_input(key, &vec![], &mut show_logs, &mut logger)
}

fn text_of(tag: &id3::Tag, id: &str) -> Option<String> {
    tag.get(id).and_then(|f| f.content().text()).map(|t| t.to_string())
}

fn detail_ids(state: &MainState) -> Vec<String> {
    state
        .details
        .iter()
        .map(|d| match d {
            DetailItem::FileName(name) => format!("file:{}", name),
            DetailItem::Frame(f) => f.id.clone(),
        })
        .collect()
}

#[test]
fn new_state_is_empty_with_default_template() {
    let state = MainState::new();
    assert!(state.files.is_empty());
    assert!(state.details.is_empty());
    assert!(state.popup_stack.is_empty());
    assert_eq!(state.files_state, None);
    assert_eq!(state.details_state, None);
    assert!(state.focus == Focus::Files);
    assert_eq!(state.template_string, "{track} {title}.mp3");
}

#[test]
fn entry_is_named_by_last_path_component() {
    assert_eq!(entry("/music/album/song.mp3", &[]).filename, "song.mp3");
    assert_eq!(entry("song.mp3", &[]).filename, "song.mp3");
    assert_eq!(entry("/music/dir/", &[]).filename, "");
    assert_eq!(entry("", &[]).filename, "");
    let e = entry("/a/b.mp3", &[]);
    assert_eq!(e.path, "/a/b.mp3");
    assert!(!e.selected);
}

#[test]
fn merging_a_known_path_leaves_the_working_set_unchanged() {
    let mut state = MainState::new();
    state.add_files(vec![entry("/m/a.mp3", &[("TIT2", "first")]), entry("/m/b.mp3", &[])]);
    assert_eq!(state.files.len(), 2);
    state.add_files(vec![entry("/m/a.mp3", &[("TIT2", "second")])]);
    assert_eq!(state.files.len(), 2);
    assert_eq!(text_of(&state.files[0].tag, "TIT2"), Some("first".to_string()));
    state.add_files(vec![entry("/m/c.mp3", &[]), entry("/m/c.mp3", &[]), entry("/m/b.mp3", &[])]);
    assert_eq!(state.files.len(), 3);
    assert_eq!(state.files[2].path, "/m/c.mp3");
    assert!(state.contains_path("/m/c.mp3"));
    assert!(!state.contains_path("/m/d.mp3"));
}

#[test]
fn select_all_selects_then_deselects() {
    let mut state = MainState::new();
    state.add_files(vec![entry("/m/a.mp3", &[]), entry("/m/b.mp3", &[]), entry("/m/c.mp3", &[])]);
    state.files[1].selected = true;
    press(&mut state, Action::SelectAll);
    assert!(state.files.iter().all(|e| e.selected));
    press(&mut state, Action::SelectAll);
    assert!(state.files.iter().all(|e| !e.selected));
}

#[test]
fn select_all_needs_the_files_focus() {
    let mut state = MainState::new();
    state.add_files(vec![entry("/m/a.mp3", &[])]);
    press(&mut state, Action::SwitchFocus);
    press(&mut state, Action::SelectAll);
    assert!(!state.files[0].selected);
}

#[test]
fn navigation_wraps_in_the_files_list() {
    let mut state = MainState::new();
    state.add_files(vec![entry("/m/a.mp3", &[]), entry("/m/b.mp3", &[]), entry("/m/c.mp3", &[])]);
    press(&mut state, Action::Next);
    assert_eq!(state.files_state, Some(0));
    for _ in 0..3 {
        press(&mut state, Action::Next);
    }
    assert_eq!(state.files_state, Some(0));
    press(&mut state, Action::Prev);
    assert_eq!(state.files_state, Some(2));
    for _ in 0..3 {
        press(&mut state, Action::Prev);
    }
    assert_eq!(state.files_state, Some(2));
}

#[test]
fn navigation_on_an_empty_list_does_nothing() {
    let mut state = MainState::new();
    press(&mut state, Action::Next);
    assert_eq!(state.files_state, None);
    press(&mut state, Action::Prev);
    assert_eq!(state.files_state, None);
    press(&mut state, Action::SwitchFocus);
    assert!(state.focus == Focus::Details);
    assert_eq!(state.details_state, None);
    press(&mut state, Action::Next);
    assert_eq!(state.details_state, None);
    press(&mut state, Action::SpawnPopup);
    assert!(state.popup_stack.is_empty());
}

#[test]
fn details_show_the_file_name_then_text_frames_by_name() {
    let mut tag = tag_with(&[("TIT2", "Song"), ("TPE1", "Band")]);
    tag.add_frame(id3::Frame::link("WOAF", "http://example.org"));
    let mut state = MainState::new();
    state.add_files(vec![Entry::new("/m/a.mp3".to_string(), tag)]);
    press(&mut state, Action::Next);
    // "Lead artist..." sorts before "Title...", though TIT2 stands first in the tag.
    assert_eq!(detail_ids(&state), vec!["file:a.mp3", "TPE1", "TIT2"]);
    match &state.details[2] {
        DetailItem::Frame(f) => assert!(matches!(&f.content, Content::Text(t) if t == "Song")),
        _ => panic!("expected a frame"),
    }
}

#[test]
fn edit_reaches_highlighted_and_selected_entries_only() {
    let mut state = MainState::new();
    state.add_files(vec![
        entry("/m/a.mp3", &[("TIT2", "old a")]),
        entry("/m/b.mp3", &[("TIT2", "old b")]),
        entry("/m/c.mp3", &[("TIT2", "old c")]),
    ]);
    press(&mut state, Action::Next);
    press(&mut state, Action::Next);
    press(&mut state, Action::SelectCurrent);
    press(&mut state, Action::Prev);
    assert_eq!(state.files_state, Some(0));
    assert!(!state.files[0].selected && state.files[1].selected && !state.files[2].selected);
    press(&mut state, Action::SwitchFocus);
    assert_eq!(state.details_state, Some(0));
    press(&mut state, Action::Next);
    press(&mut state, Action::SpawnPopup);
    assert!(matches!(state.popup_widget(), Some(Popup::SingleInput(_))));
    for _ in 0..5 {
        type_key(&mut state, Key::Backspace);
    }
    for c in "new".chars() {
        type_key(&mut state, Key::Char(c));
    }
    let event = type_key(&mut state, Key::Enter);
    assert!(matches!(event, AppEvent::NoOp));
    assert!(state.popup_stack.is_empty());
    assert_eq!(text_of(&state.files[0].tag, "TIT2"), Some("new".to_string()));
    assert_eq!(text_of(&state.files[1].tag, "TIT2"), Some("new".to_string()));
    assert_eq!(text_of(&state.files[2].tag, "TIT2"), Some("old c".to_string()));
    assert_eq!(state.files[0].tag.frames().count(), 1);
    assert_eq!(state.files[1].tag.frames().count(), 1);
    // the details cursor moved on and wrapped, since the frame was the last line
    assert_eq!(state.details_state, Some(0));
    match &state.details[1] {
        DetailItem::Frame(f) => assert!(matches!(&f.content, Content::Text(t) if t == "new")),
        _ => panic!("expected a frame"),
    }
}

#[test]
fn empty_text_is_not_committed() {
    let mut state = MainState::new();
    state.add_files(vec![entry("/m/a.mp3", &[("TIT2", "old")])]);
    press(&mut state, Action::Next);
    press(&mut state, Action::SwitchFocus);
    press(&mut state, Action::Next);
    press(&mut state, Action::SpawnPopup);
    for _ in 0..3 {
        type_key(&mut state, Key::Backspace);
    }
    type_key(&mut state, Key::Enter);
    assert!(state.popup_stack.is_empty());
    assert_eq!(text_of(&state.files[0].tag, "TIT2"), Some("old".to_string()));
    assert_eq!(state.details_state, Some(1));
}

#[test]
fn escape_discards_the_edit() {
    let mut state = MainState::new();
    state.add_files(vec![entry("/m/a.mp3", &[("TIT2", "old")])]);
    press(&mut state, Action::Next);
    press(&mut state, Action::SwitchFocus);
    press(&mut state, Action::Next);
    press(&mut state, Action::SpawnPopup);
    type_key(&mut state, Key::Char('x'));
    type_key(&mut state, Key::Esc);
    assert!(state.popup_stack.is_empty());
    assert_eq!(text_of(&state.files[0].tag, "TIT2"), Some("old".to_string()));
}

#[test]
fn file_name_edit_goes_to_the_highlighted_entry_alone() {
    let mut state = MainState::new();
    state.add_files(vec![entry("/m/a.mp3", &[]), entry("/m/b.mp3", &[])]);
    state.files[1].selected = true;
    press(&mut state, Action::Next);
    press(&mut state, Action::SwitchFocus);
    press(&mut state, Action::SpawnPopup);
    match state.popup_widget() {
        Some(Popup::SingleInput(p)) => {
            assert_eq!(p.text, "Filename");
            assert_eq!(p.content, "a.mp3");
            assert_eq!(p.cursor_pos, 5);
        }
        _ => panic!("expected a one-line dialog"),
    }
    type_key(&mut state, Key::Char('!'));
    type_key(&mut state, Key::Enter);
    assert_eq!(state.files[0].filename, "a.mp3!");
    assert_eq!(state.files[1].filename, "b.mp3");
    assert!(matches!(&state.details[0], DetailItem::FileName(n) if n == "a.mp3!"));
}

fn extended(tag: &id3::Tag) -> Vec<(String, String)> {
    tag.extended_texts().map(|e| (e.description.clone(), e.value.clone())).collect()
}

#[test]
fn description_change_drops_the_old_frame() {
    let mut tag_a = id3::Tag::new();
    tag_a.add_extended_text("d1", "v");
    tag_a.add_extended_text("keep", "k");
    let mut tag_b = id3::Tag::new();
    tag_b.add_extended_text("d1", "other");
    let mut state = MainState::new();
    state.add_files(vec![
        Entry::new("/m/a.mp3".to_string(), tag_a),
        Entry::new("/m/b.mp3".to_string(), tag_b),
        entry("/m/c.mp3", &[]),
    ]);
    state.files[1].selected = true;
    press(&mut state, Action::Next);
    press(&mut state, Action::SwitchFocus);
    press(&mut state, Action::Next);
    match &state.details[1] {
        DetailItem::Frame(f) => {
            assert_eq!(f.id, "TXXX");
            assert!(matches!(&f.content, Content::ExtendedText { description, .. } if description == "d1"));
        }
        _ => panic!("expected a frame"),
    }
    press(&mut state, Action::SpawnPopup);
    assert!(matches!(state.popup_widget(), Some(Popup::DoubleInput(_))));
    press(&mut state, Action::Next);
    press(&mut state, Action::SelectField);
    type_key(&mut state, Key::Backspace);
    type_key(&mut state, Key::Char('2'));
    type_key(&mut state, Key::Enter);
    press(&mut state, Action::SaveChanges);
    assert!(state.popup_stack.is_empty());
    let a = extended(&state.files[0].tag);
    assert_eq!(a.iter().filter(|(d, _)| d == "d2").count(), 1);
    assert_eq!(a.iter().filter(|(d, _)| d == "d1").count(), 0);
    assert!(a.contains(&("d2".to_string(), "v".to_string())));
    assert!(a.contains(&("keep".to_string(), "k".to_string())));
    let b = extended(&state.files[1].tag);
    assert_eq!(b, vec![("d2".to_string(), "v".to_string())]);
    assert!(extended(&state.files[2].tag).is_empty());
}

#[test]
fn empty_description_or_value_is_rejected() {
    let mut tag = id3::Tag::new();
    tag.add_extended_text("d1", "v");
    let mut state = MainState::new();
    state.add_files(vec![Entry::new("/m/a.mp3".to_string(), tag)]);
    press(&mut state, Action::Next);
    press(&mut state, Action::SwitchFocus);
    press(&mut state, Action::Next);
    press(&mut state, Action::SpawnPopup);
    press(&mut state, Action::Prev);
    press(&mut state, Action::SelectField);
    type_key(&mut state, Key::Backspace);
    type_key(&mut state, Key::Enter);
    press(&mut state, Action::SaveChanges);
    assert!(state.popup_stack.is_empty());
    assert_eq!(extended(&state.files[0].tag), vec![("d1".to_string(), "v".to_string())]);
}

#[test]
fn template_rename_skips_entries_that_lack_a_frame() {
    let mut state = MainState::new();
    state.add_files(vec![
        entry("/m/a.mp3", &[("TRCK", "1"), ("TIT2", "Song")]),
        entry("/m/b.mp3", &[("TIT2", "Only title")]),
        entry("/m/c.mp3", &[("TRCK", "3"), ("TIT2", "Third")]),
        entry("/m/d.mp3", &[("TRCK", "4"), ("TIT2", "Unselected")]),
    ]);
    for i in 0..3 {
        state.files[i].selected = true;
    }
    press(&mut state, Action::UpdateNames);
    assert_eq!(state.files[0].filename, "1 Song.mp3");
    assert_eq!(state.files[1].filename, "b.mp3");
    assert_eq!(state.files[2].filename, "3 Third.mp3");
    assert_eq!(state.files[3].filename, "d.mp3");
    assert_eq!(state.files[0].path, "/m/a.mp3");
}

#[test]
fn unknown_placeholder_renames_nothing() {
    let mut state = MainState::new();
    state.template_string = "{artist} {title}.mp3".to_string();
    state.add_files(vec![entry("/m/a.mp3", &[("TPE1", "Band"), ("TIT2", "Song")])]);
    state.files[0].selected = true;
    press(&mut state, Action::UpdateNames);
    assert_eq!(state.files[0].filename, "a.mp3");
}

#[test]
fn rename_with_given_placeholders() {
    let mut state = MainState::new();
    state.template_string = "{title}-{title}".to_string();
    state.add_files(vec![entry("/m/a.mp3", &[("TIT2", "x")])]);
    state.files[0].selected = true;
    state.rename_selected(&vec!["{title}".to_string()]);
    assert_eq!(state.files[0].filename, "x-x");
}

#[test]
fn template_dialog_sets_the_template() {
    let mut state = MainState::new();
    press(&mut state, Action::TemplatePopup);
    match state.popup_widget() {
        Some(Popup::TemplateInput(p)) => assert_eq!(p.content, "{track} {title}.mp3"),
        _ => panic!("expected the template dialog"),
    }
    for _ in 0..19 {
        type_key(&mut state, Key::Backspace);
    }
    for c in "{title}".chars() {
        type_key(&mut state, Key::Char(c));
    }
    type_key(&mut state, Key::Enter);
    assert_eq!(state.template_string, "{title}");
    press(&mut state, Action::TemplatePopup);
    for _ in 0..7 {
        type_key(&mut state, Key::Backspace);
    }
    type_key(&mut state, Key::Enter);
    assert_eq!(state.template_string, "{title}");
    assert!(state.popup_stack.is_empty());
}

#[test]
fn detail_cursor_is_reset_when_it_falls_off_the_end() {
    let mut state = MainState::new();
    state.add_files(vec![entry("/m/a.mp3", &[("TIT2", "t"), ("TPE1", "a"), ("TALB", "b")])]);
    press(&mut state, Action::Next);
    press(&mut state, Action::SwitchFocus);
    press(&mut state, Action::Prev);
    assert_eq!(state.details.len(), 4);
    assert_eq!(state.details_state, Some(3));
    press(&mut state, Action::Remove);
    assert_eq!(state.details.len(), 3);
    assert_eq!(state.details_state, Some(0));
    assert!(state.files[0].tag.get("TIT2").is_none());
    assert!(state.files[0].tag.get("TPE1").is_some());
}

#[test]
fn removing_the_file_name_line_removes_nothing() {
    let mut state = MainState::new();
    state.add_files(vec![entry("/m/a.mp3", &[("TIT2", "t")])]);
    press(&mut state, Action::Next);
    press(&mut state, Action::SwitchFocus);
    press(&mut state, Action::Remove);
    assert_eq!(state.files.len(), 1);
    assert_eq!(state.files[0].tag.frames().count(), 1);
}

#[test]
fn remove_frame_fans_out_to_selected_entries() {
    let mut state = MainState::new();
    state.add_files(vec![
        entry("/m/a.mp3", &[("TIT2", "t")]),
        entry("/m/b.mp3", &[("TIT2", "u"), ("TALB", "x")]),
        entry("/m/c.mp3", &[("TIT2", "v")]),
    ]);
    state.files[1].selected = true;
    press(&mut state, Action::Next);
    press(&mut state, Action::SwitchFocus);
    press(&mut state, Action::Next);
    press(&mut state, Action::Remove);
    assert!(state.files[0].tag.get("TIT2").is_none());
    assert!(state.files[1].tag.get("TIT2").is_none());
    assert!(state.files[1].tag.get("TALB").is_some());
    assert!(state.files[2].tag.get("TIT2").is_some());
}

#[test]
fn remove_files_drops_selected_and_highlighted() {
    let mut state = MainState::new();
    state.add_files(vec![
        entry("/m/a.mp3", &[]),
        entry("/m/b.mp3", &[]),
        entry("/m/c.mp3", &[]),
        entry("/m/d.mp3", &[]),
    ]);
    state.files[0].selected = true;
    press(&mut state, Action::Prev);
    press(&mut state, Action::Prev);
    assert_eq!(state.files_state, Some(3));
    press(&mut state, Action::Remove);
    let left: Vec<&str> = state.files.iter().map(|e| e.path.as_str()).collect();
    assert_eq!(left, vec!["/m/b.mp3", "/m/c.mp3"]);
    assert_eq!(state.files_state, Some(0));
    assert_eq!(detail_ids(&state), vec!["file:b.mp3"]);
}

#[test]
fn removing_every_file_clears_the_cursors() {
    let mut state = MainState::new();
    state.add_files(vec![entry("/m/a.mp3", &[("TIT2", "t")])]);
    press(&mut state, Action::Next);
    press(&mut state, Action::SwitchFocus);
    press(&mut state, Action::SwitchFocus);
    press(&mut state, Action::Remove);
    assert!(state.files.is_empty());
    assert!(state.details.is_empty());
    assert_eq!(state.files_state, None);
    assert_eq!(state.details_state, None);
    state.add_files(vec![entry("/m/a.mp3", &[]), entry("/m/b.mp3", &[])]);
    press(&mut state, Action::Next);
    press(&mut state, Action::RemoveFiles);
    assert!(state.files.is_empty());
    assert_eq!(state.files_state, None);
    assert_eq!(state.details_state, None);
}

#[test]
fn add_frame_does_not_overwrite_but_user_text_is_always_added() {
    let mut state = MainState::new();
    state.add_files(vec![
        entry("/m/a.mp3", &[("TIT2", "keep")]),
        entry("/m/b.mp3", &[]),
        entry("/m/c.mp3", &[]),
    ]);
    state.files[1].selected = true;
    press(&mut state, Action::Next);
    state.add_frame("TIT2");
    assert_eq!(text_of(&state.files[0].tag, "TIT2"), Some("keep".to_string()));
    assert_eq!(text_of(&state.files[1].tag, "TIT2"), Some("".to_string()));
    assert!(state.files[2].tag.get("TIT2").is_none());
    assert_eq!(detail_ids(&state), vec!["file:a.mp3", "TIT2"]);
    state.add_frame("TXXX");
    assert_eq!(extended(&state.files[0].tag), vec![("Description".to_string(), "Value".to_string())]);
    assert_eq!(extended(&state.files[1].tag), vec![("Description".to_string(), "Value".to_string())]);
    assert!(extended(&state.files[2].tag).is_empty());
    state.add_frame("TOOLONG");
    assert_eq!(state.files[0].tag.frames().count(), 2);
}

#[test]
fn actions_that_belong_to_the_caller_come_back_as_events() {
    let mut state = MainState::new();
    assert!(matches!(press(&mut state, Action::Quit), AppEvent::Quit));
    assert!(matches!(press(&mut state, Action::WriteTags), AppEvent::WriteTags));
    assert!(matches!(
        press(&mut state, Action::ScreenTwo),
        AppEvent::SwitchScreen(rid3::state::ScreenState::Files)
    ));
    assert!(matches!(
        press(&mut state, Action::ScreenThree),
        AppEvent::SwitchScreen(rid3::state::ScreenState::Frames)
    ));
    assert!(matches!(
        press(&mut state, Action::ScreenOne),
        AppEvent::SwitchScreen(rid3::state::ScreenState::Main)
    ));
    assert!(matches!(press(&mut state, Action::NoOp), AppEvent::NoOp));
}

#[test]
fn log_actions_reach_the_log_view() {
    let mut state = MainState::new();
    let mut show_logs = true;
    let mut logger = Logger::new();
    state.handle_input(Key::Other, &vec![Action::ToggleLogs], &mut show_logs, &mut logger);
    assert!(!show_logs);
    for i in 0..3 {
        logger.log(rid3::logger::LogRecord { level: rid3::logger::Level::Info, msg: format!("{}", i) });
    }
    state.handle_input(Key::Other, &vec![Action::LogsNext], &mut show_logs, &mut logger);
    assert_eq!(logger.index, 1);
    state.handle_input(Key::Other, &vec![Action::LogsPrev], &mut show_logs, &mut logger);
    assert_eq!(logger.index, 0);
}

#[test]
fn ambiguous_key_resolves_by_scope() {
    let mut state = MainState::new();
    state.add_files(vec![entry("/m/a.mp3", &[])]);
    let mut show_logs = true;
    let mut logger = Logger::new();
    // one key bound to "add all files" on the files screen and "select all" here
    state.handle_input(
        Key::Char('a'),
        &vec![Action::AddAllFiles, Action::SelectAll, Action::AddFrame],
        &mut show_logs,
        &mut logger,
    );
    assert!(state.files[0].selected);
}

#[test]
fn help_page_closes_on_any_key() {
    let mut state = MainState::new();
    state.help_text = vec!["line".to_string()];
    press(&mut state, Action::Help);
    match state.popup_widget() {
        Some(Popup::Help(h)) => {
            assert_eq!(h.title, "Main Help");
            assert_eq!(h.data, vec!["line".to_string()]);
        }
        _ => panic!("expected the help page"),
    }
    type_key(&mut state, Key::Char('x'));
    assert!(state.popup_widget().is_none());
}

#[test]
fn frames_of_other_kinds_are_shown_but_not_edited() {
    let mut tag = id3::Tag::new();
    tag.add_frame(id3::Frame::with_content("TCOM", id3::Content::Link("x".to_string())));
    let mut state = MainState::new();
    state.add_files(vec![Entry::new("/m/a.mp3".to_string(), tag)]);
    press(&mut state, Action::Next);
    assert_eq!(detail_ids(&state), vec!["file:a.mp3", "TCOM"]);
    assert!(matches!(&state.details[1], DetailItem::Frame(f) if matches!(f.content, Content::Other)));
    press(&mut state, Action::SwitchFocus);
    press(&mut state, Action::Next);
    press(&mut state, Action::SpawnPopup);
    assert!(state.popup_stack.is_empty());
    state.add_frame("TCOM");
    assert_eq!(state.files[0].tag.frames().count(), 1);
}

#[test]
fn edit_lands_last_even_beside_a_frame_of_another_kind() {
    let mut other = id3::Tag::new();
    other.add_frame(id3::Frame::with_content(
        "TIT2",
        id3::Content::Unknown(id3::frame::Unknown { data: vec![1, 2], version: id3::Version::Id3v24 }),
    ));
    other.add_frame(id3::Frame::text("TALB", "album"));
    let mut state = MainState::new();
    state.add_files(vec![entry("/m/a.mp3", &[("TIT2", "old")]), Entry::new("/m/b.mp3".to_string(), other)]);
    state.files[1].selected = true;
    press(&mut state, Action::Next);
    press(&mut state, Action::SwitchFocus);
    press(&mut state, Action::Next);
    press(&mut state, Action::SpawnPopup);
    type_key(&mut state, Key::Char('!'));
    type_key(&mut state, Key::Enter);
    assert_eq!(text_of(&state.files[0].tag, "TIT2"), Some("old!".to_string()));
    let frames: Vec<&id3::Frame> = state.files[1].tag.frames().collect();
    let last = frames.last().unwrap();
    assert_eq!(last.id(), "TIT2");
    assert_eq!(last.content().text(), Some("old!"));
    assert_eq!(text_of(&state.files[1].tag, "TALB"), Some("album".to_string()));
    assert_eq!(frames.iter().filter(|f| f.id() != "TIT2").count(), 1);
}

#[test]
fn edit_under_the_same_description_replaces_the_frame() {
    let mut tag = id3::Tag::new();
    tag.add_extended_text("d1", "v");
    let mut state = MainState::new();
    state.add_files(vec![Entry::new("/m/a.mp3".to_string(), tag)]);
    press(&mut state, Action::Next);
    press(&mut state, Action::SwitchFocus);
    press(&mut state, Action::Next);
    press(&mut state, Action::SpawnPopup);
    press(&mut state, Action::Prev);
    press(&mut state, Action::SelectField);
    type_key(&mut state, Key::Char('2'));
    type_key(&mut state, Key::Enter);
    press(&mut state, Action::SaveChanges);
    assert_eq!(extended(&state.files[0].tag), vec![("d1".to_string(), "v2".to_string())]);
}
