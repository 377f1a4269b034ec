use id3::TagLike;
use rid3::actions::{display_keycode, help_line, resolve, Action, Key, KeyBindings, Scope};
use rid3::frame_data::{id_to_name, name_to_id, supported_frame, SUPPORTED_FRAME_COUNT};
use rid3::logger::{Level, LogRecord, Logger};
use rid3::order::{key_no_later, sort_order, text_no_later, SortKey};
use rid3::rename::{placeholder_pattern, position_of_id, render_name, resolve_placeholder};
use rid3::state::files_state::{DirItem, FilesState};
use rid3::state::frames_state::FramesState;
use rid3::state::main_state::Entry;
use rid3::state::{update_screen_state, AppEvent, ScreenState, Screens};
use rid3::tag::{check_frame_id, Content, Frame};
use rid3::text::{chars_of, starts_with_char, str_eq, string_of};
use rid3::theme::{color_by_name, parse_color, pick_color, Color};

#[test]
fn one_candidate_is_taken_as_it_is() {
    assert_eq!(resolve(&vec![Action::AddFrame], Scope::Main), Action::AddFrame);
    assert_eq!(resolve(&vec![Action::Quit], Scope::Files), Action::Quit);
}

#[test]
fn several_candidates_resolve_by_scope() {
    let both = vec![Action::Next, Action::SelectAll, Action::AddAllFiles, Action::AddFrame];
    assert_eq!(resolve(&both, Scope::Main), Action::SelectAll);
    assert_eq!(resolve(&both, Scope::Files), Action::AddAllFiles);
    assert_eq!(resolve(&both, Scope::Frames), Action::AddFrame);
    assert_eq!(resolve(&both, Scope::MainPopup), Action::NoOp);
    assert_eq!(
        resolve(&vec![Action::SpawnPopup, Action::SelectField], Scope::MainPopup),
        Action::SelectField
    );
    assert_eq!(
        resolve(&vec![Action::EnterDir, Action::HiddenDir], Scope::Files),
        Action::EnterDir
    );
    assert_eq!(resolve(&vec![Action::Next, Action::Prev], Scope::Main), Action::NoOp);
    assert_eq!(resolve(&vec![], Scope::Main), Action::NoOp);
}

#[test]
fn keys_and_actions_are_read_from_their_names() {
    assert_eq!(Key::from_name("Up"), Some(Key::Up));
    assert_eq!(Key::from_name("PageDown"), Some(Key::PageDown));
    assert_eq!(Key::from_name("Insert"), Some(Key::Insert));
    assert_eq!(Key::from_name("q"), Some(Key::Char('q')));
    assert_eq!(Key::from_name("1"), Some(Key::Char('1')));
    assert_eq!(Key::from_name("F1"), None);
    assert_eq!(Key::from_name(""), None);
    assert_eq!(Key::from_name("ö"), None);
    assert_eq!(Action::from_name("up"), Some(Action::Prev));
    assert_eq!(Action::from_name("down"), Some(Action::Next));
    assert_eq!(Action::from_name("parent_directory"), Some(Action::ParentDir));
    assert_eq!(Action::from_name("show_hidden"), Some(Action::HiddenDir));
    assert_eq!(Action::from_name("save_changes"), Some(Action::SaveChanges));
    assert_eq!(Action::from_name("Up"), None);
    assert_eq!(Action::from_name("none"), None);
}

#[test]
fn keys_are_shown_by_name() {
    assert_eq!(display_keycode(&Key::Char('q')), "q");
    assert_eq!(display_keycode(&Key::Up), "Up");
    assert_eq!(display_keycode(&Key::BackTab), "BackTab");
    assert_eq!(display_keycode(&Key::Enter), "Enter");
    assert_eq!(help_line(&Key::Char('q'), "Quit"), "`q` - Quit");
    assert_eq!(help_line(&Key::Esc, "Back"), "`Esc` - Back");
}

fn bindings() -> KeyBindings {
    let mut b = KeyBindings::new();
    b.bind(Action::Quit, Key::Char('x'));
    b.bind(Action::SelectAll, Key::Char('a'));
    b.bind(Action::AddAllFiles, Key::Char('a'));
    b.bind(Action::AddFrame, Key::Char('a'));
    b.bind(Action::RemoveFiles, Key::Char('c'));
    b.bind(Action::Remove, Key::Char('d'));
    b.bind(Action::SelectCurrent, Key::Char('s'));
    b.bind(Action::AddFile, Key::Char('s'));
    b.bind(Action::WriteTags, Key::Char('w'));
    b.bind(Action::ParentDir, Key::Char('b'));
    b.bind(Action::Quit, Key::Char('q'));
    b
}

#[test]
fn binding_an_action_again_replaces_its_key() {
    let mut b = KeyBindings::new();
    assert!(b.pairs.is_empty());
    b.bind(Action::Quit, Key::Char('x'));
    b.bind(Action::Help, Key::Char('h'));
    b.bind(Action::Quit, Key::Char('q'));
    assert_eq!(b.pairs, vec![(Action::Quit, Key::Char('q')), (Action::Help, Key::Char('h'))]);
    assert_eq!(b.get_key(Action::Quit), Some(Key::Char('q')));
    assert_eq!(b.get_actions(Key::Char('x')), vec![]);
    assert_eq!(b.get_actions(Key::Char('q')), vec![Action::Quit]);
}

#[test]
fn bindings_give_candidates_and_keys() {
    let b = bindings();
    assert_eq!(
        b.get_actions(Key::Char('a')),
        vec![Action::SelectAll, Action::AddAllFiles, Action::AddFrame]
    );
    assert_eq!(b.get_actions(Key::Char('z')), vec![]);
    assert_eq!(b.get_key(Action::Quit), Some(Key::Char('q')));
    assert_eq!(b.get_key(Action::Help), None);
    assert!(b.can_show(Action::Quit));
    assert!(!b.can_show(Action::Help));
    assert_eq!(b.help_line_for(Action::WriteTags, "Write changes"), "`w` - Write changes");
}

#[test]
fn help_texts_are_built_from_the_bindings() {
    let b = bindings();
    let mut main = rid3::state::main_state::MainState::new();
    main.update_help_text(&b);
    assert_eq!(
        main.help_text,
        vec![
            "`q` - Quit",
            "`c` - Remove all files",
            "`d` - Remove selected files/frame",
            "`s` - Select highlighted file",
            "`a` - Select/Deselect all files",
            "`w` - Write changes",
        ]
    );
    let mut files = FilesState::new("/".to_string(), vec![]);
    files.update_help_text(&b);
    assert_eq!(
        files.help_text,
        vec![
            "`q` - Quit",
            "`b` - Change to parent directory",
            "`s` - Add highlighted file",
            "`a` - Add all files",
        ]
    );
    let mut frames = FramesState::new();
    frames.update_help_text(&b);
    assert_eq!(frames.help_text, vec!["`q` - Quit", "`a` - Add selected frame"]);
}

#[test]
fn frame_ids_translate_to_names() {
    assert_eq!(id_to_name("TIT2"), Ok("Title".to_string()));
    assert_eq!(id_to_name("TALB"), Ok("Album".to_string()));
    assert_eq!(id_to_name("TPE1"), Ok("Artist".to_string()));
    assert_eq!(id_to_name("TRCK"), Ok("Track".to_string()));
    assert_eq!(id_to_name("TDRC"), Ok("Date".to_string()));
    assert_eq!(id_to_name("TXXX"), Ok("User Defined Text".to_string()));
    assert_eq!(id_to_name("TIT1"), Ok("Content Group".to_string()));
    assert_eq!(id_to_name("TCOM"), Err("Frame not supported".to_string()));
    assert_eq!(id_to_name("tit2"), Err("Frame not supported".to_string()));
    for i in 0..SUPPORTED_FRAME_COUNT {
        let kind = supported_frame(i);
        assert_eq!(id_to_name(kind.id), Ok(kind.name.to_string()));
    }
    assert_eq!(id_to_name(""), Err("Frame not supported".to_string()));
}

#[test]
fn template_names_translate_to_ids() {
    assert_eq!(name_to_id("title"), Ok("TIT2".to_string()));
    assert_eq!(name_to_id("track"), Ok("TRCK".to_string()));
    assert_eq!(name_to_id("Title"), Err("Name not recognised".to_string()));
    assert_eq!(name_to_id("artist"), Err("Name not recognised".to_string()));
}

#[test]
fn catalog_lists_seven_kinds() {
    assert_eq!(SUPPORTED_FRAME_COUNT, 7);
    let ids: Vec<&str> = (0..SUPPORTED_FRAME_COUNT).map(|i| supported_frame(i).id).collect();
    assert_eq!(ids, vec!["TIT1", "TIT2", "TALB", "TPE1", "TRCK", "TDRC", "TXXX"]);
    assert_eq!(supported_frame(1).name, "Title");
    assert_eq!(supported_frame(6).name, "User Defined Text");
    assert!(supported_frame(4).description.starts_with("The 'Track number/Position in set'"));
}

#[test]
fn log_window_follows_new_records() {
    let mut logger = Logger::new();
    logger.next();
    logger.prev();
    assert_eq!(logger.index, 0);
    for i in 0..8 {
        logger.log(LogRecord { level: Level::Info, msg: format!("{}", i) });
    }
    assert_eq!(logger.index, 0);
    logger.log(LogRecord { level: Level::Warn, msg: "8".to_string() });
    assert_eq!(logger.index, 1);
    logger.log(LogRecord { level: Level::Error, msg: "9".to_string() });
    assert_eq!(logger.index, 2);
    assert_eq!(logger.items.len(), 10);
    logger.prev();
    logger.prev();
    logger.prev();
    assert_eq!(logger.index, 0);
    for _ in 0..20 {
        logger.next();
    }
    assert_eq!(logger.index, 9);
    logger.prev();
    assert_eq!(logger.index, 8);
    logger.log(LogRecord { level: Level::Trace, msg: "10".to_string() });
    assert_eq!(logger.index, 8);
}

#[test]
fn texts_compare_in_dictionary_order() {
    let v = |s: &str| -> Vec<char> { s.chars().collect() };
    assert!(text_no_later(&v(""), &v("")));
    assert!(text_no_later(&v(""), &v("a")));
    assert!(!text_no_later(&v("a"), &v("")));
    assert!(text_no_later(&v("abc"), &v("abd")));
    assert!(!text_no_later(&v("abd"), &v("abc")));
    assert!(text_no_later(&v("ab"), &v("abc")));
    assert!(text_no_later(&v("Z"), &v("a")));
    assert!(text_no_later(&v("z"), &v("é")));
    let k = |rank: u8, s: &str| SortKey { rank, text: v(s) };
    assert!(key_no_later(&k(0, "z"), &k(1, "a")));
    assert!(!key_no_later(&k(2, "a"), &k(1, "z")));
    assert!(key_no_later(&k(1, "a"), &k(1, "a")));
}

#[test]
fn sort_order_is_stable() {
    let v = |s: &str| -> Vec<char> { s.chars().collect() };
    let keys = vec![
        SortKey { rank: 1, text: v("b") },
        SortKey { rank: 1, text: v("a") },
        SortKey { rank: 0, text: v("z") },
        SortKey { rank: 1, text: v("a") },
        SortKey { rank: 1, text: v("b") },
    ];
    assert_eq!(sort_order(&keys), vec![2, 1, 3, 0, 4]);
    assert_eq!(sort_order(&vec![]), Vec::<usize>::new());
}

#[test]
fn string_helpers() {
    assert!(str_eq("abc", "abc"));
    assert!(!str_eq("abc", "abd"));
    assert!(!str_eq("abc", "ab"));
    assert!(str_eq("", ""));
    assert!(starts_with_char("Txx", 'T'));
    assert!(!starts_with_char("xT", 'T'));
    assert!(!starts_with_char("", 'T'));
    assert_eq!(chars_of("héy"), vec!['h', 'é', 'y']);
    assert_eq!(string_of(&vec!['h', 'é', 'y']), "héy");
    assert_eq!(string_of(&vec![]), "");
}

#[test]
fn frame_ids_are_four_bytes() {
    assert!(check_frame_id("TIT2"));
    assert!(!check_frame_id("TT2"));
    assert!(!check_frame_id("TIT22"));
    assert!(!check_frame_id(""));
    assert!(check_frame_id("öö"));
}

#[test]
fn placeholders_resolve_against_frames() {
    let frames = vec![
        Frame::text("TALB", "Album"),
        Frame::text("TIT2", "First"),
        Frame::text("TIT2", "Second"),
        Frame::extended_text("TRCK", "d", "v"),
    ];
    assert_eq!(position_of_id(&frames, "TIT2"), Some(1));
    assert_eq!(position_of_id(&frames, "TPE1"), None);
    assert_eq!(resolve_placeholder(&frames, "{title}"), Some("First".to_string()));
    assert_eq!(resolve_placeholder(&frames, "{track}"), None);
    assert_eq!(resolve_placeholder(&frames, "{album}"), None);
    assert_eq!(resolve_placeholder(&frames, "title"), None);
    assert_eq!(resolve_placeholder(&frames, ""), None);
    assert_eq!(placeholder_pattern(), r"\{[\w]+\}");
    assert!(matches!(Frame::text("TIT2", "x").duplicate().content, Content::Text(t) if t == "x"));
}

#[test]
fn names_are_rendered_from_a_template() {
    let frames = vec![Frame::text("TRCK", "7"), Frame::text("TIT2", "Song")];
    let matches = vec!["{track}".to_string(), "{title}".to_string()];
    assert_eq!(
        render_name("{track} {title}.mp3", &frames, &matches),
        Some("7 Song.mp3".to_string())
    );
    assert_eq!(render_name("plain.mp3", &frames, &vec![]), Some("plain.mp3".to_string()));
    let only_title = vec![Frame::text("TIT2", "Song")];
    assert_eq!(render_name("{track} {title}.mp3", &only_title, &matches), None);
    let twice = vec!["{title}".to_string(), "{title}".to_string()];
    assert_eq!(
        render_name("{title}/{title}", &only_title, &twice),
        Some("Song/Song".to_string())
    );
}

#[test]
fn colours_are_read_by_name_or_in_hexadecimal() {
    assert_eq!(parse_color("Red"), Some(Color::Red));
    assert_eq!(parse_color("Reset"), Some(Color::Reset));
    assert_eq!(parse_color("LightMagenta"), Some(Color::LightMagenta));
    assert_eq!(parse_color("White"), Some(Color::White));
    assert_eq!(parse_color("#ff0000"), Some(Color::Rgb(255, 0, 0)));
    assert_eq!(parse_color("#0080ff"), Some(Color::Rgb(0, 128, 255)));
    assert_eq!(parse_color("notacolour"), None);
    assert_eq!(color_by_name("red"), None);
    assert_eq!(pick_color("Blue", Some((1, 2, 3))), Some(Color::Blue));
    assert_eq!(pick_color("other", Some((1, 2, 3))), Some(Color::Rgb(1, 2, 3)));
    assert_eq!(pick_color("other", None), None);
}

#[test]
fn frames_screen_adds_the_highlighted_kind() {
    let mut frames = FramesState::new();
    let mut show_logs = true;
    let mut logger = Logger::new();
    assert_eq!(frames.frames_state, Some(0));
    assert_eq!(frames.frame_id(), Some("TIT1"));
    frames.handle_input(Key::Other, &vec![Action::Prev], &mut show_logs, &mut logger);
    assert_eq!(frames.frames_state, Some(6));
    match frames.handle_input(Key::Other, &vec![Action::AddFrame], &mut show_logs, &mut logger) {
        AppEvent::AddFrame(id) => assert_eq!(id, "TXXX"),
        _ => panic!("expected a frame to add"),
    }
    for _ in 0..7 {
        frames.handle_input(Key::Other, &vec![Action::Next], &mut show_logs, &mut logger);
    }
    assert_eq!(frames.frames_state, Some(6));
    frames.handle_input(Key::Other, &vec![Action::Help], &mut show_logs, &mut logger);
    assert!(frames.popup_widget().is_some());
    let ev = frames.handle_input(Key::Other, &vec![Action::AddFrame], &mut show_logs, &mut logger);
    assert!(matches!(ev, AppEvent::NoOp));
    assert!(frames.popup_widget().is_none());
    let ev = frames.handle_input(
        Key::Char('a'),
        &vec![Action::SelectAll, Action::AddFrame],
        &mut show_logs,
        &mut logger,
    );
    assert!(matches!(ev, AppEvent::AddFrame(_)));
}

#[test]
fn switching_screens_keeps_every_screen() {
    let files = FilesState::new(
        "/music".to_string(),
        vec![DirItem { path: "/music/a.mp3".to_string(), name: "a.mp3".to_string(), is_dir: false }],
    );
    let mut screens = Screens::new(files);
    assert!(screens.screen == ScreenState::Main);
    screens.deliver(AppEvent::AddFiles(vec![Entry::new("/music/a.mp3".to_string(), id3::Tag::new())]));
    assert_eq!(screens.main.files.len(), 1);
    screens.handle_input(Key::Other, &vec![Action::Next]);
    assert_eq!(screens.main.files_state, Some(0));
    let ev = screens.handle_input(Key::Char('3'), &vec![Action::ScreenThree]);
    assert!(matches!(ev, AppEvent::NoOp));
    assert!(screens.screen == ScreenState::Frames);
    screens.handle_input(Key::Other, &vec![Action::Next]);
    assert_eq!(screens.frames.frames_state, Some(1));
    let ev = screens.handle_input(Key::Char('a'), &vec![Action::SelectAll, Action::AddFrame]);
    assert!(matches!(ev, AppEvent::NoOp));
    assert!(screens.main.files[0].tag.get("TIT2").is_some());
    screens.handle_input(Key::Char('2'), &vec![Action::ScreenTwo]);
    assert!(screens.screen == ScreenState::Files);
    screens.handle_input(Key::Other, &vec![Action::Next]);
    screens.handle_input(Key::Other, &vec![Action::Next]);
    assert!(matches!(
        screens.handle_input(Key::Other, &vec![Action::AddFile]),
        AppEvent::LoadFiles(_)
    ));
    screens.handle_input(Key::Char('1'), &vec![Action::ScreenOne]);
    assert!(screens.screen == ScreenState::Main);
    assert_eq!(screens.main.files_state, Some(0));
    assert_eq!(screens.frames.frames_state, Some(1));
    assert_eq!(screens.files.files_state, Some(1));
    assert!(matches!(screens.handle_input(Key::Char('q'), &vec![Action::Quit]), AppEvent::Quit));
    screens.handle_input(Key::Char('l'), &vec![Action::ToggleLogs]);
    assert!(!screens.show_logs);
    assert!(matches!(update_screen_state(ScreenState::Files), AppEvent::SwitchScreen(ScreenState::Files)));
}

#[test]
fn every_match_of_a_placeholder_gives_way() {
    let frames = vec![Frame::text("TIT2", "a{title}b"), Frame::text("TRCK", "9")];
    // the title's text holds a placeholder of its own, which the second pass does not touch
    assert_eq!(
        render_name("{track}{track}-{title}", &frames, &vec!["{track}".to_string()]),
        Some("99-{title}".to_string())
    );
    assert_eq!(
        render_name("x{title}y", &frames, &vec!["{title}".to_string()]),
        Some("xa{title}by".to_string())
    );
    assert_eq!(
        render_name("{title", &frames, &vec!["{title}".to_string()]),
        Some("{title".to_string())
    );
}
