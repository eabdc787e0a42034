use garlaunch::item::{Action, ItemData};
use garlaunch::script::{script_action, script_items, ScriptAction, ScriptItem};

fn answer(action: &str, command: Option<&str>, mode: Option<&str>, data: Option<&str>) -> ScriptAction {
    ScriptAction {
        action: action.to_string(),
        command: command.map(String::from),
        mode: mode.map(String::from),
        data: data.map(String::from),
    }
}

#[test]
fn maps_script_answers_to_actions() {
    assert!(matches!(script_action(&answer("launch", Some("ls"), None, None)), Action::Launch(c) if c == "ls"));
    assert!(matches!(script_action(&answer("launch", None, None, None)), Action::Close));
    assert!(matches!(script_action(&answer("close", Some("ls"), None, None)), Action::Close));
    assert!(matches!(script_action(&answer("switch", None, Some("run"), None)), Action::SwitchMode(m) if m == "run"));
    assert!(matches!(script_action(&answer("switch", None, None, None)), Action::Close));
    assert!(matches!(script_action(&answer("custom", None, None, Some("{\"a\":1}"))), Action::Custom(d) if d == "{\"a\":1}"));
    assert!(matches!(script_action(&answer("custom", None, None, None)), Action::Close));
    assert!(matches!(script_action(&answer("dance", Some("ls"), Some("m"), Some("1"))), Action::Close));
}

#[test]
fn turns_script_items_into_items() {
    let listed = vec![
        ScriptItem { id: "1".into(), name: "One".into(), description: Some("first".into()), icon: None, data: Some("[1]".into()) },
        ScriptItem { id: "2".into(), name: "Two".into(), description: None, icon: Some("i".into()), data: None },
    ];
    let items = script_items(&listed);
    assert_eq!(items.len(), 2);
    assert_eq!(items[0].description.as_deref(), Some("first"));
    assert!(matches!(&items[0].data, ItemData::Json(t) if t == "[1]"));
    assert_eq!(items[1].icon.as_deref(), Some("i"));
    assert!(matches!(&items[1].data, ItemData::Null));
}
