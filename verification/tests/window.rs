use garlaunch::item::ItemData;
use garlaunch::window::{
    check_reply, describe_window, focused_window, window_item, window_items, window_target,
    windows_on_workspace, WindowInfo,
};

fn win(id: u32, class: Option<&str>, instance: Option<&str>, ws: u32, focused: bool) -> WindowInfo {
    WindowInfo {
        id,
        title: format!("title {}", id),
        class: class.map(String::from),
        instance: instance.map(String::from),
        workspace: ws,
        focused,
    }
}

#[test]
fn describes_windows() {
    assert_eq!(describe_window(&win(1, Some("Firefox"), Some("Navigator"), 2, false)), "Firefox - Navigator [WS 2]");
    assert_eq!(describe_window(&win(1, Some("kitty"), Some("kitty"), 10, false)), "kitty [WS 10]");
    assert_eq!(describe_window(&win(1, Some("kitty"), None, 3, false)), "kitty [WS 3]");
    assert_eq!(describe_window(&win(42, None, Some("x"), 0, false)), "Window 42 [WS 0]");
}

#[test]
fn window_items_focus_their_window() {
    let w = win(305, Some("a"), None, 4, true);
    let item = window_item(&w);
    assert_eq!(item.id, "305");
    assert_eq!(item.name, "title 305");
    assert_eq!(item.description.as_deref(), Some("a [WS 4]"));
    match &item.data {
        ItemData::Window { window_id, workspace, focused } => {
            assert_eq!((*window_id, *workspace, *focused), (305, 4, true));
        }
        _ => panic!("wrong data"),
    }
    assert_eq!(window_target(&item).ok(), Some(305));
    assert_eq!(window_items(&[w.clone(), w]).len(), 2);
}

#[test]
fn non_window_items_have_no_target() {
    let item = garlaunch::item::Item::new("1", "x");
    assert_eq!(window_target(&item).err().unwrap().message(), "Invalid window ID");
}

#[test]
fn finds_focused_and_workspace_windows() {
    let ws = vec![win(1, None, None, 1, false), win(2, None, None, 2, true), win(3, None, None, 1, true)];
    assert_eq!(focused_window(&ws).unwrap().id, 2);
    assert!(focused_window(&ws[..1]).is_none());
    let on1: Vec<u32> = windows_on_workspace(&ws, 1).iter().map(|w| w.id).collect();
    assert_eq!(on1, vec![1, 3]);
    assert!(windows_on_workspace(&ws, 9).is_empty());
}

#[test]
fn checks_replies() {
    assert!(check_reply(true, &None).is_ok());
    assert!(check_reply(true, &Some("ignored".to_string())).is_ok());
    assert!(check_reply(false, &None).is_ok());
    assert_eq!(check_reply(false, &Some("no such window".to_string())).err().unwrap(), "gar error: no such window");
}
