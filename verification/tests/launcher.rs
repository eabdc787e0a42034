use garlaunch::item::{Action, Item};
use garlaunch::launcher::{popup_origin, InputEvent, Key, LauncherState};

fn items(n: usize) -> Vec<Item> {
    (0..n).map(|i| Item::new(&format!("id{}", i), &format!("item {}", i))).collect()
}

fn press(s: &mut LauncherState, key: Key) -> bool {
    s.handle_event(InputEvent::Key { key, pressed: true }).activate
}

#[test]
fn starts_with_everything_listed() {
    let s = LauncherState::new(items(3));
    assert_eq!(s.match_count(), 3);
    assert_eq!(s.input_text(), "");
    let (visible, sel) = s.visible_items();
    assert_eq!(visible.len(), 3);
    assert_eq!(sel, 0);
}

#[test]
fn typing_filters_and_erasing_restores() {
    let mut list = items(3);
    list.push(Item::new("ff", "firefox"));
    let mut s = LauncherState::new(list);
    for c in "fire".chars() {
        press(&mut s, Key::Char(c));
    }
    assert_eq!(s.input_text(), "fire");
    assert_eq!(s.cursor(), 4);
    assert_eq!(s.match_count(), 1);
    assert_eq!(s.current_item().unwrap().id, "ff");
    for _ in 0..4 {
        press(&mut s, Key::Backspace);
    }
    assert_eq!(s.input_text(), "");
    assert_eq!(s.match_count(), 4);
}

#[test]
fn cursor_moves_and_edits() {
    let mut s = LauncherState::new(items(1));
    press(&mut s, Key::Char('a'));
    press(&mut s, Key::Char('c'));
    press(&mut s, Key::Left);
    press(&mut s, Key::Char('b'));
    assert_eq!(s.input_text(), "abc");
    press(&mut s, Key::Home);
    assert_eq!(s.cursor(), 0);
    press(&mut s, Key::Left);
    assert_eq!(s.cursor(), 0);
    press(&mut s, Key::Delete);
    assert_eq!(s.input_text(), "bc");
    press(&mut s, Key::End);
    assert_eq!(s.cursor(), 2);
    press(&mut s, Key::Right);
    assert_eq!(s.cursor(), 2);
    press(&mut s, Key::Space);
    assert_eq!(s.input_text(), "bc ");
    press(&mut s, Key::Delete);
    assert_eq!(s.input_text(), "bc ");
}

#[test]
fn selection_scrolls_with_the_window() {
    let mut s = LauncherState::new(items(25));
    for _ in 0..12 {
        press(&mut s, Key::Down);
    }
    let (visible, sel) = s.visible_items();
    assert_eq!(visible.len(), 10);
    assert_eq!(visible[0].id, "id3");
    assert_eq!(sel, 9);
    assert_eq!(s.current_item().unwrap().id, "id12");
    press(&mut s, Key::PageDown);
    assert_eq!(s.current_item().unwrap().id, "id22");
    press(&mut s, Key::PageDown);
    assert_eq!(s.current_item().unwrap().id, "id24");
    let (visible, sel) = s.visible_items();
    assert_eq!(visible.len(), 10);
    assert_eq!(visible[sel].id, "id24");
    press(&mut s, Key::PageUp);
    assert_eq!(s.current_item().unwrap().id, "id14");
    let (visible, sel) = s.visible_items();
    assert_eq!((visible[0].id.as_str(), sel), ("id14", 0));
    for _ in 0..30 {
        press(&mut s, Key::Up);
    }
    assert_eq!(s.current_item().unwrap().id, "id0");
}

#[test]
fn return_activates_and_actions_finish() {
    let mut s = LauncherState::new(items(2));
    assert!(press(&mut s, Key::Return));
    assert!(!press(&mut s, Key::Tab));
    assert!(s.apply_action(Action::SwitchMode("run".into())).is_some());
    assert!(!s.should_quit());
    assert!(s.apply_action(Action::Launch("ls".into())).is_none());
    assert!(s.should_quit());
    assert!(matches!(s.take_result(), Some(Action::Launch(c)) if c == "ls"));
    assert!(s.take_result().is_none());

    let mut s = LauncherState::new(items(2));
    s.apply_action(Action::Close);
    assert!(s.should_quit());
    assert!(s.take_result().is_none());
}

#[test]
fn switching_modes_resets_the_query() {
    let mut s = LauncherState::new(items(2));
    press(&mut s, Key::Char('z'));
    s.switch_items(items(5));
    assert_eq!(s.input_text(), "");
    assert_eq!(s.match_count(), 5);
}

#[test]
fn focus_and_close_events() {
    let mut s = LauncherState::new(items(1));
    s.handle_event(InputEvent::FocusOut);
    assert!(!s.should_quit());
    s.handle_event(InputEvent::FocusIn);
    s.handle_event(InputEvent::FocusOut);
    assert!(s.should_quit());

    let mut s = LauncherState::new(items(1));
    assert!(s.handle_event(InputEvent::Expose).redraw);
    assert!(!s.handle_event(InputEvent::Key { key: Key::Escape, pressed: false }).redraw);
    assert!(!s.should_quit());
    press(&mut s, Key::Escape);
    assert!(s.should_quit());

    let mut s = LauncherState::new(items(1));
    s.handle_event(InputEvent::CloseRequested);
    assert!(s.should_quit());
}

#[test]
fn empty_list_has_no_current_item() {
    let mut s = LauncherState::new(Vec::new());
    press(&mut s, Key::Down);
    assert!(s.current_item().is_none());
    assert_eq!(s.visible_items().0.len(), 0);
}

#[test]
fn typed_characters_are_accepted_within_limits() {
    let mut s = LauncherState::new(items(3));
    assert!(s.accepts_char('x'));
    assert!(s.accepts_char(' '));
    press(&mut s, Key::Char('i'));
    press(&mut s, Key::Space);
    assert!(s.accepts_char('1'));
    assert_eq!(s.input_text(), "i ");
}

#[test]
fn popup_sits_centred_a_third_down() {
    assert_eq!(popup_origin(0, 0, 1920, 1080), (660, 226));
    assert_eq!(popup_origin(1920, 0, 2560, 1440), (1920 + 980, 346));
    assert_eq!(popup_origin(10, 20, 501, 101), (10 - 49, 20 - 99));
}
