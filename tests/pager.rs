use linkman::app::{
    Action, App, KeyCode, Modifiers, MouseKind, MouseMode, PagerEvent, SearchMode,
};

fn key(c: char) -> PagerEvent {
    PagerEvent::Key { code: KeyCode::Char(c), modifiers: Modifiers::Plain }
}

fn numbered(n: usize) -> String {
    (0..n).map(|i| format!("line {}\n", i)).collect()
}

#[test]
fn new_splits_stripped_content_into_lines() {
    let app = App::new("\u{1b}[1mfoo\u{1b}[0m bar(1)\r\nbaz\n".to_string(), "foo(1)");
    assert_eq!(app.title(), "LinkMan - foo(1)");
    assert_eq!(app.lines(), &vec!["foo bar(1)".to_string(), "baz".to_string()]);
    assert_eq!(app.processed_content(), "foo bar(1)\nbaz");
    assert_eq!(app.line_count(), 2);
    assert_eq!(app.scroll(), 0);
    assert_eq!(app.mouse_mode(), MouseMode::LinkClicking);
    assert_eq!(app.search_mode(), SearchMode::NoSearch);
}

#[test]
fn new_keeps_empty_lines_and_drops_control_characters() {
    let app = App::new("a\n\nb\r\t".to_string(), "x");
    assert_eq!(app.lines(), &vec!["a".to_string(), String::new(), "b".to_string()]);
    let empty = App::new(String::new(), "x");
    assert_eq!(empty.line_count(), 0);
    assert_eq!(empty.processed_content(), "");
}

#[test]
fn render_clamps_scroll_to_bound() {
    let mut app = App::new(numbered(30), "x");
    app.render(10);
    for _ in 0..100 {
        app.handle_event(key('j'));
    }
    // 30 lines, 10 rows: the bound is 30 - 10 + 2.
    assert_eq!(app.scroll(), 22);
    assert_eq!(app.render(20), 12);
    assert_eq!(app.render(40), 0);
}

#[test]
fn scroll_keys_move_by_one_and_stop_at_top() {
    let mut app = App::new(numbered(30), "x");
    app.render(10);
    assert_eq!(app.handle_event(key('j')), Action::Continue);
    app.handle_event(PagerEvent::Key { code: KeyCode::Down, modifiers: Modifiers::Plain });
    assert_eq!(app.scroll(), 2);
    app.handle_event(key('k'));
    app.handle_event(PagerEvent::Key { code: KeyCode::Up, modifiers: Modifiers::Plain });
    app.handle_event(key('k'));
    assert_eq!(app.scroll(), 0);
    app.handle_event(PagerEvent::Mouse { kind: MouseKind::ScrollDown, column: 3, row: 3 });
    assert_eq!(app.scroll(), 1);
    app.handle_event(PagerEvent::Mouse { kind: MouseKind::ScrollUp, column: 3, row: 3 });
    assert_eq!(app.scroll(), 0);
}

#[test]
fn jump_to_bottom_and_top() {
    let mut app = App::new(numbered(30), "x");
    app.render(10);
    app.handle_event(key('G'));
    assert_eq!(app.scroll(), 22);
    app.handle_event(key('g'));
    assert_eq!(app.scroll(), 0);
    app.handle_event(PagerEvent::Key { code: KeyCode::Char('g'), modifiers: Modifiers::ShiftOnly });
    assert_eq!(app.scroll(), 22);
}

#[test]
fn short_document_bound() {
    let mut app = App::new(numbered(3), "x");
    app.render(4);
    app.handle_event(key('G'));
    assert_eq!(app.scroll(), 1);
    app.render(10);
    assert_eq!(app.scroll(), 0);
}

#[test]
fn quit_key() {
    let mut app = App::new(numbered(3), "x");
    assert_eq!(app.handle_event(key('q')), Action::Quit);
}

#[test]
fn toggling_mouse_mode_twice_restores_it() {
    let mut app = App::new(numbered(3), "x");
    let alt_i = PagerEvent::Key { code: KeyCode::Char('i'), modifiers: Modifiers::AltOnly };
    assert_eq!(app.apply_mouse_mode(), true);
    assert_eq!(app.handle_event(alt_i), Action::SetMouseCapture(false));
    assert_eq!(app.mouse_mode(), MouseMode::TextSelection);
    assert_eq!(app.handle_event(alt_i), Action::SetMouseCapture(true));
    assert_eq!(app.mouse_mode(), MouseMode::LinkClicking);
    assert_eq!(app.apply_mouse_mode(), true);
    assert_eq!(app.handle_event(key('i')), Action::Continue);
    assert_eq!(app.mouse_mode(), MouseMode::LinkClicking);
}

#[test]
fn mouse_mode_toggle_and_apply() {
    let mut m = MouseMode::TextSelection;
    assert_eq!(m.apply(), false);
    assert_eq!(m.toggle(), true);
    assert_eq!(m, MouseMode::LinkClicking);
    assert_eq!(m.toggle(), false);
    assert_eq!(m, MouseMode::TextSelection);
}

#[test]
fn search_mode_captures_events_until_enter_or_escape() {
    let mut app = App::new(numbered(30), "x");
    app.render(10);
    app.handle_event(key('/'));
    assert_eq!(app.search_mode(), SearchMode::TypingQuery);
    assert_eq!(app.handle_event(key('j')), Action::EditSearch);
    assert_eq!(app.handle_event(key('q')), Action::EditSearch);
    assert_eq!(app.scroll(), 0);
    let esc = PagerEvent::Key { code: KeyCode::Esc, modifiers: Modifiers::Plain };
    assert_eq!(app.handle_event(esc), Action::ClearSearch);
    assert_eq!(app.search_mode(), SearchMode::NoSearch);
    app.handle_event(key('/'));
    let enter = PagerEvent::Key { code: KeyCode::Enter, modifiers: Modifiers::Plain };
    assert_eq!(app.handle_event(enter), Action::RunSearch);
    assert_eq!(app.search_mode(), SearchMode::NoSearch);
}

#[test]
fn click_on_reference_follows_link() {
    let mut app = App::new("foo bar(1)\nbaz".to_string(), "foo(1)");
    app.render(24);
    let click = PagerEvent::Mouse { kind: MouseKind::LeftUp, column: 6, row: 1 };
    assert_eq!(
        app.handle_event(click),
        Action::FollowLink { section: b"1\0".to_vec(), name: b"bar\0".to_vec() }
    );
}

#[test]
fn click_on_whitespace_or_plain_word_does_nothing() {
    let mut app = App::new("foo bar(1)\nbaz".to_string(), "foo(1)");
    app.render(24);
    let on_space = PagerEvent::Mouse { kind: MouseKind::LeftUp, column: 4, row: 1 };
    assert_eq!(app.handle_event(on_space), Action::Continue);
    let on_word = PagerEvent::Mouse { kind: MouseKind::LeftUp, column: 2, row: 1 };
    assert_eq!(app.handle_event(on_word), Action::Continue);
}

#[test]
fn click_outside_content_rows_does_nothing() {
    let mut app = App::new("foo bar(1)\nbaz".to_string(), "foo(1)");
    app.render(4);
    let click = PagerEvent::Mouse { kind: MouseKind::LeftUp, column: 6, row: 1 };
    assert_eq!(app.handle_event(click), Action::FollowLink { section: b"1\0".to_vec(), name: b"bar\0".to_vec() });
    app.render(3);
    assert_eq!(app.handle_event(click), Action::Continue);
    app.render(24);
    let on_border = PagerEvent::Mouse { kind: MouseKind::LeftUp, column: 6, row: 0 };
    assert_eq!(app.handle_event(on_border), Action::Continue);
}

#[test]
fn after_link_jump_reapplies_mode_on_success() {
    let mut app = App::new("foo".to_string(), "foo(1)");
    assert_eq!(app.after_link_jump(true), Some(true));
    assert_eq!(app.after_link_jump(false), None);
    app.toggle_mouse_mode();
    assert_eq!(app.after_link_jump(true), Some(false));
}

#[test]
fn resize_rewraps_and_reclamps() {
    let content = "one two three four five six seven eight nine ten\nshort".to_string();
    let mut app = App::new(content, "x");
    assert_eq!(app.line_count(), 2);
    app.render(4);
    app.handle_event(key('G'));
    assert_eq!(app.scroll(), 0);
    let action = app.handle_event(PagerEvent::Resize { columns: 10, rows: 4 });
    assert_eq!(action, Action::SetManWidth(8));
    let n = app.line_count();
    assert!(n > 2);
    assert_eq!(n, app.lines().len());
    assert!(app.lines().iter().all(|l| l.chars().count() <= 10));
    assert_eq!(app.lines().last().unwrap(), "short");
    assert_eq!(app.processed_content(), app.lines().join("\n"));
    let words: Vec<&str> = app.processed_content().split_whitespace().collect();
    assert_eq!(words.len(), 11);
    app.handle_event(key('G'));
    assert_eq!(app.scroll(), n - 2);
    app.handle_event(PagerEvent::Resize { columns: 80, rows: 4 });
    assert_eq!(app.line_count(), 2);
    assert_eq!(app.scroll(), 0);
}

#[test]
fn resize_width_saturates() {
    let mut app = App::new("a".to_string(), "x");
    assert_eq!(app.handle_event(PagerEvent::Resize { columns: 1, rows: 4 }), Action::SetManWidth(0));
}

#[test]
fn other_events_change_nothing() {
    let mut app = App::new(numbered(30), "x");
    app.render(10);
    assert_eq!(app.handle_event(PagerEvent::Other), Action::Continue);
    assert_eq!(app.handle_event(key('x')), Action::Continue);
    assert_eq!(app.scroll(), 0);
}
