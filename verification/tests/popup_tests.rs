use rid3::actions::{Action, Key};
use rid3::popups::double_input::DoubleInput;
use rid3::popups::help::HelpPopup;
use rid3::popups::single_input::SingleInput;
use rid3::popups::template::TemplateInput;
use rid3::popups::{edit_line, Popup, PopupData};
use rid3::state::AppEvent;

fn line(p: &SingleInput) -> String {
    p.input.iter().collect()
}

#[test]
fn single_input_starts_with_cursor_at_the_end() {
    let p = SingleInput::new("TIT2", "héllo");
    assert_eq!(p.text, "TIT2");
    assert_eq!(p.content, "héllo");
    assert_eq!(line(&p), "héllo");
    assert_eq!(p.cursor_pos, 5);
}

#[test]
fn single_input_edits_at_the_cursor() {
    let mut p = SingleInput::new("TIT2", "abc");
    assert!(matches!(p.handle_input(Key::Left, Action::NoOp), AppEvent::NoOp));
    assert_eq!(p.cursor_pos, 2);
    p.handle_input(Key::Char('X'), Action::NoOp);
    assert_eq!(line(&p), "abXc");
    assert_eq!(p.cursor_pos, 3);
    p.handle_input(Key::Backspace, Action::NoOp);
    assert_eq!(line(&p), "abc");
    assert_eq!(p.cursor_pos, 2);
    p.handle_input(Key::Right, Action::NoOp);
    p.handle_input(Key::Right, Action::NoOp);
    assert_eq!(p.cursor_pos, 3);
    for _ in 0..5 {
        p.handle_input(Key::Left, Action::NoOp);
    }
    assert_eq!(p.cursor_pos, 0);
    p.handle_input(Key::Backspace, Action::NoOp);
    assert_eq!(line(&p), "abc");
    p.handle_input(Key::Tab, Action::Quit);
    assert_eq!(line(&p), "abc");
    assert_eq!(p.content, "abc");
}

#[test]
fn single_input_closes_with_or_without_its_line() {
    let mut p = SingleInput::new("TIT2", "ab");
    p.handle_input(Key::Char('c'), Action::NoOp);
    match p.handle_input(Key::Enter, Action::NoOp) {
        AppEvent::ClosePopupData(PopupData::SingleInput(text)) => assert_eq!(text, "abc"),
        _ => panic!("expected the line"),
    }
    assert!(matches!(p.handle_input(Key::Esc, Action::NoOp), AppEvent::ClosePopup));
}

#[test]
fn cursor_moves_stay_within_the_line() {
    let mut p = TemplateInput::new("ab");
    assert_eq!(p.text, "Text");
    assert_eq!(p.cursor_pos, 2);
    p.increment_cursor_pos();
    assert_eq!(p.cursor_pos, 2);
    p.decrement_cursor_pos();
    p.decrement_cursor_pos();
    p.decrement_cursor_pos();
    assert_eq!(p.cursor_pos, 0);
    p.increment_cursor_pos();
    assert_eq!(p.cursor_pos, 1);
    let mut s = SingleInput::new("x", "");
    s.decrement_cursor_pos();
    s.increment_cursor_pos();
    assert_eq!(s.cursor_pos, 0);
}

#[test]
fn template_input_hands_back_the_template() {
    let mut p = TemplateInput::new("{title}");
    p.handle_input(Key::Char('!'), Action::NoOp);
    match p.handle_input(Key::Enter, Action::NoOp) {
        AppEvent::ClosePopupData(PopupData::TemplateInput(text)) => assert_eq!(text, "{title}!"),
        _ => panic!("expected the template"),
    }
    assert!(matches!(p.handle_input(Key::Esc, Action::NoOp), AppEvent::ClosePopup));
}

#[test]
fn edit_line_inserts_and_deletes() {
    let mut input: Vec<char> = "ac".chars().collect();
    let mut cursor = 1;
    edit_line(&mut input, &mut cursor, Key::Char('b'));
    assert_eq!(input, vec!['a', 'b', 'c']);
    assert_eq!(cursor, 2);
    edit_line(&mut input, &mut cursor, Key::Backspace);
    assert_eq!(input, vec!['a', 'c']);
    assert_eq!(cursor, 1);
    edit_line(&mut input, &mut cursor, Key::Enter);
    assert_eq!(input, vec!['a', 'c']);
    assert_eq!(cursor, 1);
}

#[test]
fn double_input_moves_between_its_two_fields() {
    let mut p = DoubleInput::new("d", "v");
    assert_eq!(p.list_state, None);
    p.next();
    assert_eq!(p.list_state, Some(0));
    p.next();
    assert_eq!(p.list_state, Some(1));
    p.next();
    assert_eq!(p.list_state, Some(0));
    p.prev();
    assert_eq!(p.list_state, Some(1));
    let mut q = DoubleInput::new("d", "v");
    q.prev();
    assert_eq!(q.list_state, Some(1));
}

#[test]
fn double_input_edits_one_field_at_a_time() {
    let mut p = DoubleInput::new("desc", "val");
    // no field highlighted yet: selecting does nothing
    p.handle_input(Key::Other, Action::SelectField);
    assert!(!p.input_focused);
    p.handle_input(Key::Other, Action::Next);
    p.handle_input(Key::Other, Action::SelectField);
    assert!(p.input_focused);
    assert_eq!(p.input.iter().collect::<String>(), "desc");
    assert_eq!(p.cursor_pos, 4);
    // while typing, actions are ignored and keys edit the line
    p.handle_input(Key::Char('!'), Action::SaveChanges);
    assert!(p.input_focused);
    p.handle_input(Key::Enter, Action::NoOp);
    assert!(!p.input_focused);
    assert_eq!(p.description, "desc!");
    assert_eq!(p.value, "val");
    assert!(p.input.is_empty());
    assert_eq!(p.cursor_pos, 0);
    p.handle_input(Key::Other, Action::Next);
    p.handle_input(Key::Other, Action::SelectField);
    p.handle_input(Key::Char('?'), Action::NoOp);
    p.handle_input(Key::Esc, Action::NoOp);
    assert_eq!(p.value, "val");
    assert!(!p.input_focused);
    match p.handle_input(Key::Other, Action::SaveChanges) {
        AppEvent::ClosePopupData(PopupData::DoubleInput(d, v)) => {
            assert_eq!(d, "desc!");
            assert_eq!(v, "val");
        }
        _ => panic!("expected both fields"),
    }
    assert!(matches!(p.handle_input(Key::Other, Action::Back), AppEvent::ClosePopup));
    assert!(matches!(p.handle_input(Key::Esc, Action::Quit), AppEvent::NoOp));
}

#[test]
fn help_closes_on_any_input() {
    let mut h = HelpPopup::new("Help".to_string(), vec!["a".to_string()]);
    assert_eq!(h.title, "Help");
    assert_eq!(h.data, vec!["a".to_string()]);
    assert!(matches!(h.handle_input(Key::Char('q'), Action::NoOp), AppEvent::ClosePopup));
    let mut p = Popup::Help(h);
    assert!(matches!(p.handle_input(Key::Other, Action::Quit), AppEvent::ClosePopup));
    let mut s = Popup::SingleInput(SingleInput::new("x", "y"));
    assert!(matches!(s.handle_input(Key::Esc, Action::NoOp), AppEvent::ClosePopup));
}
