use garlaunch::executables::{collect_executables, run_action, Executable};
use garlaunch::item::{Action, Item, ItemData};

fn exe(name: &str, dir: &str) -> Executable {
    Executable { name: name.to_string(), path: format!("{}/{}", dir, name) }
}

#[test]
fn first_on_path_wins_hidden_skipped_sorted() {
    let found = vec![
        exe("zsh", "/bin"),
        exe("ls", "/usr/bin"),
        exe(".hidden", "/bin"),
        exe("ls", "/bin"),
        exe("Vim", "/bin"),
    ];
    let items = collect_executables(&found);
    let names: Vec<&str> = items.iter().map(|i| i.name.as_str()).collect();
    assert_eq!(names, vec!["Vim", "ls", "zsh"]);
    let ls = items.iter().find(|i| i.id == "ls").unwrap();
    match &ls.data {
        ItemData::Executable { path } => assert_eq!(path, "/usr/bin/ls"),
        _ => panic!("wrong data"),
    }
}

#[test]
fn run_launches_by_name() {
    match run_action(&Item::new("id", "htop")) {
        Action::Launch(cmd) => assert_eq!(cmd, "htop"),
        _ => panic!("wrong action"),
    }
}
