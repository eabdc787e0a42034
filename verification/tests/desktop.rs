use garlaunch::desktop::{
    clean_exec, collect_desktop_items, desktop_item, drun_action, parse_desktop_file, DesktopAttrs,
    DesktopFile,
};
use garlaunch::item::{Action, Item, ItemData};

#[test]
fn test_clean_exec() {
    assert_eq!(clean_exec("firefox %u"), "firefox");
    assert_eq!(clean_exec("code %F"), "code");
    assert_eq!(clean_exec("thunar %U"), "thunar");
    assert_eq!(clean_exec("echo %%"), "echo %");
    assert_eq!(clean_exec("app --flag"), "app --flag");
}

#[test]
fn clean_exec_keeps_other_percent_signs() {
    assert_eq!(clean_exec("app %x %"), "app %x %");
    assert_eq!(clean_exec("  %k run %i  "), "run");
    assert_eq!(clean_exec(""), "");
    assert_eq!(clean_exec("a%%%f"), "a%");
}

fn desktop(contents: &str) -> Option<Item> {
    parse_desktop_file("app", "/usr/share/applications/app.desktop", contents.as_bytes())
}

#[test]
fn parses_a_desktop_file() {
    let item = desktop(
        "[Desktop Entry]\nName=Firefox\nExec=firefox %u\nComment=Browse the web\nIcon=firefox\n",
    )
    .unwrap();
    assert_eq!(item.id, "app");
    assert_eq!(item.name, "Firefox");
    assert_eq!(item.description.as_deref(), Some("Browse the web"));
    assert_eq!(item.icon.as_deref(), Some("firefox"));
    match &item.data {
        ItemData::Desktop { command, path } => {
            assert_eq!(command, "firefox");
            assert_eq!(path, "/usr/share/applications/app.desktop");
        }
        _ => panic!("wrong data"),
    }
}

#[test]
fn skips_hidden_and_incomplete_entries() {
    assert!(desktop("[Desktop Entry]\nName=A\nExec=a\nNoDisplay=true\n").is_none());
    assert!(desktop("[Desktop Entry]\nName=A\nExec=a\nHidden=true\n").is_none());
    assert!(desktop("[Desktop Entry]\nExec=a\n").is_none());
    assert!(desktop("[Desktop Entry]\nName=A\n").is_none());
    assert!(desktop("[Other]\nName=A\nExec=a\n").is_none());
    assert!(desktop("[Desktop Entry]\nName=A\nExec=a\nNoDisplay=false\n").is_some());
}

#[test]
fn refuses_unparsable_contents() {
    assert!(parse_desktop_file("x", "/x.desktop", &[0xff, 0xfe, 0x00]).is_none());
}

#[test]
fn desktop_item_from_attributes() {
    let attrs = DesktopAttrs {
        no_display: None,
        hidden: Some("false".to_string()),
        name: Some("Editor".to_string()),
        command: Some("edit %F --new".to_string()),
        comment: None,
        icon: None,
    };
    let item = desktop_item("editor", "/p/editor.desktop", &attrs).unwrap();
    assert_eq!(item.name, "Editor");
    assert!(item.description.is_none());
    match drun_action(&item) {
        Ok(Action::Launch(cmd)) => assert_eq!(cmd, "edit  --new"),
        _ => panic!("wrong action"),
    }
}

#[test]
fn drun_action_needs_a_command() {
    let item = Item::new("x", "X");
    let err = drun_action(&item).err().unwrap();
    assert_eq!(err.message(), "No exec command for item");
}

fn file(name: &str, contents: Option<&str>) -> DesktopFile {
    DesktopFile {
        file_name: format!("{}.desktop", name),
        stem: name.to_string(),
        path: format!("/apps/{}.desktop", name),
        contents: contents.map(|c| c.as_bytes().to_vec()),
    }
}

#[test]
fn collects_first_file_of_each_name_sorted_by_lowercase_name() {
    let files = vec![
        file("b", Some("[Desktop Entry]\nName=banana\nExec=b\n")),
        file("a", Some("[Desktop Entry]\nName=Apple\nExec=a\n")),
        file("b", Some("[Desktop Entry]\nName=Other B\nExec=b2\n")),
        file("c", None),
        file("d", Some("[Desktop Entry]\nName=Cherry\nExec=c\nHidden=true\n")),
        file("e", Some("[Desktop Entry]\nName=BANANA\nExec=e\n")),
    ];
    let items = collect_desktop_items(&files);
    let names: Vec<&str> = items.iter().map(|i| i.name.as_str()).collect();
    assert_eq!(names, vec!["Apple", "banana", "BANANA"]);
}

#[test]
fn a_duplicate_hides_later_files_even_if_the_first_fails() {
    let files = vec![file("a", None), file("a", Some("[Desktop Entry]\nName=A\nExec=a\n"))];
    assert!(collect_desktop_items(&files).is_empty());
}
