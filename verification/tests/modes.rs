use garlaunch::modes::{create_mode, current_time_secs, elapsed_secs, run_launcher, ModeKind};

#[test]
fn creates_known_modes() {
    assert!(matches!(create_mode("drun"), Ok(ModeKind::Drun)));
    assert!(matches!(create_mode("run"), Ok(ModeKind::Run)));
    assert!(matches!(create_mode("window"), Ok(ModeKind::Window)));
    let err = create_mode("script").err().unwrap();
    assert_eq!(err.message(), "Unknown mode: script");
}

#[test]
fn script_mode_needs_a_source() {
    assert!(matches!(run_launcher("script", Some("/s.sh")), Ok(ModeKind::Script { ref source }) if source == "/s.sh"));
    let err = run_launcher("script", None).err().unwrap();
    assert_eq!(err.message(), "Script mode requires --source argument");
    assert!(matches!(run_launcher("run", Some("/ignored")), Ok(ModeKind::Run)));
    assert_eq!(run_launcher("nope", None).err().unwrap().message(), "Unknown mode: nope");
}

#[test]
fn clock_and_elapsed_time() {
    assert!(current_time_secs() > 1_600_000_000);
    assert_eq!(elapsed_secs(100, 40), 60);
    assert_eq!(elapsed_secs(40, 100), 0);
}
