use garlaunch::ipc::{
    cache_file_path, desktop_dirs, dispatch_request, invalid_request, join, path_entries,
    socket_path_in, spawn_args, IpcCommand, Request, RequestArgs, Response,
};

fn request(command: &str, mode: Option<&str>, source: Option<&str>) -> Request {
    Request {
        command: command.to_string(),
        args: RequestArgs { mode: mode.map(String::from), source: source.map(String::from) },
    }
}

#[test]
fn test_socket_path() {
    let path = socket_path_in(Some("/run/user/1000"), "gar.sock");
    assert!(path.contains("gar.sock"));
    assert_eq!(path, "/run/user/1000/gar.sock");
    assert_eq!(socket_path_in(None, "garlaunch.sock"), "/tmp/garlaunch.sock");
}

#[test]
fn joins_like_path_join() {
    for (dir, name) in [("/a", "b"), ("/a/", "b"), ("", "b"), ("a", "/abs"), ("/x/y", "c/d")] {
        let expected = std::path::Path::new(dir).join(name);
        assert_eq!(join(dir, name), expected.to_string_lossy(), "{:?} {:?}", dir, name);
    }
}

#[test]
fn dispatches_requests() {
    let (cmd, resp) = dispatch_request(&request("show", None, Some("/s.sh")));
    assert!(matches!(cmd, Some(IpcCommand::Show { ref mode, source: Some(ref s) }) if mode == "drun" && s == "/s.sh"));
    assert!(resp.success && resp.error.is_none() && resp.data.is_none());

    let (cmd, _) = dispatch_request(&request("show", Some("run"), None));
    assert!(matches!(cmd, Some(IpcCommand::Show { ref mode, source: None }) if mode == "run"));

    let (cmd, resp) = dispatch_request(&request("hide", Some("x"), None));
    assert!(matches!(cmd, Some(IpcCommand::Hide)) && resp.success);

    let (cmd, _) = dispatch_request(&request("toggle", None, None));
    assert!(matches!(cmd, Some(IpcCommand::Toggle { ref mode }) if mode == "drun"));

    let (cmd, resp) = dispatch_request(&request("status", None, None));
    assert!(matches!(cmd, Some(IpcCommand::Status)));
    assert_eq!(resp.data.as_deref(), Some("{\"running\":true}"));

    let (cmd, resp) = dispatch_request(&request("reboot", None, None));
    assert!(cmd.is_none());
    assert!(!resp.success);
    assert_eq!(resp.error.as_deref(), Some("Unknown command: reboot"));
}

#[test]
fn builds_responses() {
    let r = Response::ok();
    assert!(r.success && r.data.is_none() && r.error.is_none());
    let r = Response::ok_with_data("[]");
    assert_eq!(r.data.as_deref(), Some("[]"));
    let r = Response::error("bad");
    assert!(!r.success);
    assert_eq!(r.error.as_deref(), Some("bad"));
    assert_eq!(invalid_request("EOF").error.as_deref(), Some("Invalid request: EOF"));
}

#[test]
fn daemon_spawns_launchers() {
    let show = IpcCommand::Show { mode: "script".into(), source: Some("/s".into()) };
    assert_eq!(spawn_args(&show).unwrap(), vec!["--mode", "script", "--source", "/s"]);
    let toggle = IpcCommand::Toggle { mode: "run".into() };
    assert_eq!(spawn_args(&toggle).unwrap(), vec!["--mode", "run"]);
    assert!(spawn_args(&IpcCommand::Hide).is_none());
    assert!(spawn_args(&IpcCommand::Status).is_none());
}

#[test]
fn cache_and_desktop_paths() {
    assert_eq!(cache_file_path(Some("/home/u/.cache"), "drun"), "/home/u/.cache/garlaunch/drun.cache");
    assert_eq!(cache_file_path(None, "run"), "~/.cache/garlaunch/run.cache");
    let dirs = desktop_dirs(Some("/home/u/.local/share"));
    assert_eq!(dirs.len(), 7);
    assert_eq!(dirs[0], "/home/u/.local/share/applications");
    assert_eq!(dirs[4], "/home/u/.local/share/flatpak/exports/share/applications");
    assert_eq!(desktop_dirs(None).len(), 5);
}

#[test]
fn splits_path_variable() {
    assert_eq!(path_entries("/bin:/usr/bin::"), vec!["/bin", "/usr/bin", "", ""]);
    assert_eq!(path_entries(""), vec![""]);
}
