use garlaunch::ctl::{ctl_request, daemon_unreachable, fallback_args, CtlCommand};
use garlaunch::ipc::{dispatch_request, spawn_args, IpcCommand};

#[test]
fn the_daemon_understands_the_client() {
    let show = CtlCommand::Show { mode: "window".into(), source: None };
    let (cmd, resp) = dispatch_request(&ctl_request(&show));
    assert!(resp.success);
    assert!(matches!(cmd, Some(IpcCommand::Show { ref mode, source: None }) if mode == "window"));

    let (cmd, _) = dispatch_request(&ctl_request(&CtlCommand::Hide));
    assert!(matches!(cmd, Some(IpcCommand::Hide)));
    let (cmd, resp) = dispatch_request(&ctl_request(&CtlCommand::Status));
    assert!(matches!(cmd, Some(IpcCommand::Status)));
    assert!(resp.data.is_some());
}

#[test]
fn fallback_starts_the_launcher_like_the_daemon() {
    let show = CtlCommand::Show { mode: "script".into(), source: Some("/x.sh".into()) };
    let args = fallback_args(&show).unwrap();
    assert_eq!(args, vec!["--mode", "script", "--source", "/x.sh"]);
    let (cmd, _) = dispatch_request(&ctl_request(&show));
    assert_eq!(spawn_args(&cmd.unwrap()).unwrap(), args);
    assert_eq!(fallback_args(&CtlCommand::Toggle { mode: "run".into() }).unwrap(), vec!["--mode", "run"]);
    assert!(fallback_args(&CtlCommand::Hide).is_none());
    assert!(fallback_args(&CtlCommand::Status).is_none());
}

#[test]
fn recognises_a_missing_daemon() {
    assert!(daemon_unreachable("No such file or directory (os error 2)"));
    assert!(daemon_unreachable("Connection refused (os error 111)"));
    assert!(!daemon_unreachable("Permission denied (os error 13)"));
    assert!(!daemon_unreachable(""));
}
