use id3::TagLike;
use rid3::actions::{Action, Key};
use rid3::logger::Logger;
use rid3::popups::Popup;
use rid3::state::files_state::{
    get_entries, get_tags, has_mp3_extension, sort_files, to_lower, DirItem, FileRead, FilesState,
    FilesStateItem, TagRead,
};
use rid3::state::{AppEvent, DirRequest, ScreenState};

fn file(name: &str) -> DirItem {
    DirItem { path: format!("/music/{}", name), name: name.to_string(), is_dir: false }
}

fn dir(name: &str) -> DirItem {
    DirItem { path: format!("/music/{}", name), name: name.to_string(), is_dir: true }
}

fn names(files: &[FilesStateItem]) -> Vec<String> {
    files
        .iter()
        .map(|f| match f {
            FilesStateItem::Parent => "..".to_string(),
            FilesStateItem::DirEntry(d) => d.name.clone(),
        })
        .collect()
}

fn press(state: &mut FilesState, action: Action) -> AppEvent {
    let mut show_logs = true;
    let mut logger = Logger::new();
    state.handle_input(Key::Other, &vec![action], &mut show_logs, &mut logger)
}

#[test]
fn listing_puts_parent_then_directories_then_files_by_name() {
    let state = FilesState::new(
        "/music".to_string(),
        vec![file("b.mp3"), file("A.mp3"), dir("subdir")],
    );
    assert_eq!(names(&state.files), vec!["..", "subdir", "A.mp3", "b.mp3"]);
    assert_eq!(state.current_dir, "/music");
    assert_eq!(state.files_state, None);
    assert!(!state.show_hidden_dirs);
}

#[test]
fn listing_keeps_only_directories_and_mp3_files() {
    let raw = vec![
        file("notes.txt"),
        file("song.mp3"),
        file("song.MP3"),
        file(".mp3"),
        file("mp3"),
        file(".hidden.mp3"),
        file("noext"),
        dir(".git"),
        dir("album"),
    ];
    let shown = get_entries(raw, false);
    assert_eq!(names(&shown), vec!["..", "song.mp3", ".hidden.mp3", "album"]);
}

#[test]
fn hidden_directories_are_listed_on_request() {
    let shown = get_entries(vec![dir(".git"), dir("album"), file(".x.mp3")], true);
    assert_eq!(names(&shown), vec!["..", ".git", "album", ".x.mp3"]);
    let empty = get_entries(vec![], false);
    assert_eq!(names(&empty), vec![".."]);
}

#[test]
fn mp3_extension_needs_a_stem() {
    assert!(has_mp3_extension("a.mp3"));
    assert!(has_mp3_extension("..mp3"));
    assert!(!has_mp3_extension(".mp3"));
    assert!(!has_mp3_extension("a.mp4"));
    assert!(!has_mp3_extension("amp3"));
    assert!(!has_mp3_extension(""));
    assert!(has_mp3_extension("ö.mp3"));
}

#[test]
fn lower_case_touches_only_capital_letters() {
    assert_eq!(to_lower('A'), 'a');
    assert_eq!(to_lower('Z'), 'z');
    assert_eq!(to_lower('a'), 'a');
    assert_eq!(to_lower('@'), '@');
    assert_eq!(to_lower('['), '[');
    assert_eq!(to_lower('Ä'), 'Ä');
}

#[test]
fn sort_is_stable_and_ignores_case() {
    let mut files = vec![
        FilesStateItem::DirEntry(file("b.mp3")),
        FilesStateItem::DirEntry(dir("Zeta")),
        FilesStateItem::DirEntry(file("B.mp3")),
        FilesStateItem::Parent,
        FilesStateItem::DirEntry(file("a.mp3")),
        FilesStateItem::DirEntry(dir("alpha")),
        FilesStateItem::DirEntry(file("ab.mp3")),
    ];
    sort_files(&mut files);
    assert_eq!(
        names(&files),
        vec!["..", "alpha", "Zeta", "a.mp3", "ab.mp3", "b.mp3", "B.mp3"]
    );
    let mut one = vec![FilesStateItem::Parent];
    sort_files(&mut one);
    assert_eq!(names(&one), vec![".."]);
}

#[test]
fn navigation_wraps_over_the_rows() {
    let mut state = FilesState::new("/music".to_string(), vec![file("a.mp3"), file("b.mp3")]);
    press(&mut state, Action::Next);
    assert_eq!(state.files_state, Some(0));
    for _ in 0..3 {
        press(&mut state, Action::Next);
    }
    assert_eq!(state.files_state, Some(0));
    press(&mut state, Action::Prev);
    assert_eq!(state.files_state, Some(2));
    for _ in 0..3 {
        press(&mut state, Action::Prev);
    }
    assert_eq!(state.files_state, Some(2));
}

#[test]
fn add_file_asks_for_the_highlighted_file_only() {
    let mut state = FilesState::new("/music".to_string(), vec![file("a.mp3"), dir("d")]);
    assert!(matches!(press(&mut state, Action::AddFile), AppEvent::NoOp));
    press(&mut state, Action::Next);
    assert!(matches!(press(&mut state, Action::AddFile), AppEvent::NoOp));
    press(&mut state, Action::Next);
    assert!(matches!(press(&mut state, Action::AddFile), AppEvent::NoOp));
    press(&mut state, Action::Next);
    match press(&mut state, Action::AddFile) {
        AppEvent::LoadFiles(paths) => assert_eq!(paths, vec!["/music/a.mp3".to_string()]),
        _ => panic!("expected a request to load"),
    }
}

#[test]
fn add_all_files_skips_parent_and_directories() {
    let mut state = FilesState::new(
        "/music".to_string(),
        vec![file("b.mp3"), dir("d"), file("a.mp3")],
    );
    match press(&mut state, Action::AddAllFiles) {
        AppEvent::LoadFiles(paths) => {
            assert_eq!(paths, vec!["/music/a.mp3".to_string(), "/music/b.mp3".to_string()])
        }
        _ => panic!("expected a request to load"),
    }
    let mut empty = FilesState::new("/music".to_string(), vec![dir("d")]);
    match press(&mut empty, Action::AddAllFiles) {
        AppEvent::LoadFiles(paths) => assert!(paths.is_empty()),
        _ => panic!("expected a request to load"),
    }
}

#[test]
fn entering_rows_asks_for_the_right_directory() {
    let mut state = FilesState::new("/music".to_string(), vec![file("a.mp3"), dir("d")]);
    assert!(matches!(press(&mut state, Action::EnterDir), AppEvent::NoOp));
    press(&mut state, Action::Next);
    assert!(matches!(
        press(&mut state, Action::EnterDir),
        AppEvent::ReadDir(DirRequest::Parent)
    ));
    press(&mut state, Action::Next);
    match press(&mut state, Action::EnterDir) {
        AppEvent::ReadDir(DirRequest::Enter(path)) => assert_eq!(path, "/music/d"),
        _ => panic!("expected a request to enter"),
    }
    press(&mut state, Action::Next);
    assert!(matches!(press(&mut state, Action::EnterDir), AppEvent::NoOp));
    assert!(matches!(
        press(&mut state, Action::ParentDir),
        AppEvent::ReadDir(DirRequest::Parent)
    ));
}

#[test]
fn showing_a_directory_replaces_the_listing_and_resets_the_cursor() {
    let mut state = FilesState::new("/music".to_string(), vec![file("a.mp3"), dir("d")]);
    press(&mut state, Action::Prev);
    press(&mut state, Action::Prev);
    assert_eq!(state.files_state, Some(2));
    state.show_dir("/music/d".to_string(), vec![file("z.mp3"), dir(".cache"), dir("x")]);
    assert_eq!(state.current_dir, "/music/d");
    assert_eq!(names(&state.files), vec!["..", "x", "z.mp3"]);
    assert_eq!(state.files_state, Some(0));
}

#[test]
fn hidden_toggle_asks_for_a_refresh() {
    let mut state = FilesState::new("/music".to_string(), vec![dir(".git")]);
    assert_eq!(names(&state.files), vec![".."]);
    assert!(matches!(
        press(&mut state, Action::HiddenDir),
        AppEvent::ReadDir(DirRequest::Refresh)
    ));
    assert!(state.show_hidden_dirs);
    state.show_dir("/music".to_string(), vec![dir(".git")]);
    assert_eq!(names(&state.files), vec!["..", ".git"]);
}

#[test]
fn ambiguous_key_resolves_to_the_browser_action() {
    let mut state = FilesState::new("/music".to_string(), vec![file("a.mp3")]);
    let mut show_logs = true;
    let mut logger = Logger::new();
    let event = state.handle_input(
        Key::Char('a'),
        &vec![Action::SelectAll, Action::AddAllFiles, Action::AddFrame],
        &mut show_logs,
        &mut logger,
    );
    assert!(matches!(event, AppEvent::LoadFiles(_)));
    let none = state.handle_input(
        Key::Char('x'),
        &vec![Action::SelectAll, Action::AddFrame],
        &mut show_logs,
        &mut logger,
    );
    assert!(matches!(none, AppEvent::NoOp));
}

#[test]
fn browser_events_and_help() {
    let mut state = FilesState::new("/music".to_string(), vec![]);
    assert!(matches!(press(&mut state, Action::Quit), AppEvent::Quit));
    assert!(matches!(
        press(&mut state, Action::ScreenOne),
        AppEvent::SwitchScreen(ScreenState::Main)
    ));
    press(&mut state, Action::Help);
    match state.popup_widget() {
        Some(Popup::Help(h)) => assert_eq!(h.title, "Files Help"),
        _ => panic!("expected the help page"),
    }
    assert!(matches!(press(&mut state, Action::Quit), AppEvent::NoOp));
    assert!(state.popup_widget().is_none());
}

#[test]
fn reads_become_entries_and_failures_are_dropped() {
    let mut tag = id3::Tag::new();
    tag.set_title("T");
    let reads = vec![
        FileRead { path: "/m/a.mp3".to_string(), outcome: TagRead::Loaded(tag) },
        FileRead { path: "/m/broken.mp3".to_string(), outcome: TagRead::Failed },
        FileRead { path: "/m/bare.mp3".to_string(), outcome: TagRead::NoTag },
    ];
    let entries = get_tags(reads);
    assert_eq!(entries.len(), 2);
    assert_eq!(entries[0].path, "/m/a.mp3");
    assert_eq!(entries[0].filename, "a.mp3");
    assert_eq!(entries[0].tag.title(), Some("T"));
    assert_eq!(entries[1].path, "/m/bare.mp3");
    assert_eq!(entries[1].tag.frames().count(), 0);
    assert!(!entries[0].selected && !entries[1].selected);
    assert!(get_tags(vec![]).is_empty());
}
