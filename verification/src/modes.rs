//! Choosing the mode to run: the mode names the launcher knows, and the
//! checks made on the command line before the launcher starts.

use vstd::prelude::*;
use crate::text::str_eq;

verus! {

/// The kind of a mode and what it needs.
pub enum ModeKind {
    /// Desktop applications.
    Drun,
    /// Executables on `PATH`.
    Run,
    /// Windows of the window manager.
    Window,
    /// Items provided by a script.
    Script { source: String },
}

/// Why the launcher could not start a mode.
pub enum LaunchError {
    /// Script mode was asked for without a script.
    MissingSource,
    /// No mode has this name.
    UnknownMode(String),
}

impl LaunchError {
    /// The error message.
    pub fn message(&self) -> (r: String)
        ensures
            r@ == match self {
                LaunchError::MissingSource => "Script mode requires --source argument"@,
                LaunchError::UnknownMode(name) => "Unknown mode: "@ + name@,
            },
    {
        match self {
            LaunchError::MissingSource => "Script mode requires --source argument".to_owned(),
            LaunchError::UnknownMode(name) => {
                let mut m = "Unknown mode: ".to_owned();
                m.append(name.as_str());
                m
            },
        }
    }
}

/// The mode a name selects among `drun`, `run` and `window`.
pub open spec fn mode_by_name(name: Seq<char>) -> Option<ModeKind> {
    if name == "drun"@ {
        Some(ModeKind::Drun)
    } else if name == "run"@ {
        Some(ModeKind::Run)
    } else if name == "window"@ {
        Some(ModeKind::Window)
    } else {
        None
    }
}

/// Create a mode by name: `drun`, `run` or `window`; any other name is an
/// unknown mode.
pub fn create_mode(name: &str) -> (r: Result<ModeKind, LaunchError>)
    ensures
        match r {
            Ok(kind) => mode_by_name(name@) == Some(kind),
            Err(e) => mode_by_name(name@) is None && (e matches LaunchError::UnknownMode(n) && n@
                == name@),
        },
{
    if str_eq(name, "drun") {
        Ok(ModeKind::Drun)
    } else if str_eq(name, "run") {
        Ok(ModeKind::Run)
    } else if str_eq(name, "window") {
        Ok(ModeKind::Window)
    } else {
        Err(LaunchError::UnknownMode(name.to_owned()))
    }
}

/// Check the command line and pick the mode to launch: script mode needs a
/// source, and is the only mode that uses it; other names go through
/// [`create_mode`].
pub fn run_launcher(mode: &str, source: Option<&str>) -> (r: Result<ModeKind, LaunchError>)
    ensures
        mode@ == "script"@ ==> match source {
            Some(s) => r matches Ok(ModeKind::Script { source: t }) && t@ == s@,
            None => r matches Err(LaunchError::MissingSource),
        },
        mode@ != "script"@ ==> match r {
            Ok(kind) => mode_by_name(mode@) == Some(kind),
            Err(e) => mode_by_name(mode@) is None && (e matches LaunchError::UnknownMode(n) && n@
                == mode@),
        },
{
    if str_eq(mode, "script") {
        match source {
            Some(s) => Ok(ModeKind::Script { source: s.to_owned() }),
            None => Err(LaunchError::MissingSource),
        }
    } else {
        create_mode(mode)
    }
}

#[verifier::external_type_specification]
#[verifier::external_body]
pub struct ExSystemTime(std::time::SystemTime);

#[verifier::external_type_specification]
#[verifier::external_body]
pub struct ExSystemTimeError(std::time::SystemTimeError);

/// Trusted: calls `SystemTime::now`. Nothing is claimed of the result, which
/// is the clock's reading.
#[verifier::external_body]
fn system_now() -> std::time::SystemTime {
    std::time::SystemTime::now()
}

/// Trusted: calls `SystemTime::duration_since` with `UNIX_EPOCH`, which
/// fails when the time lies before the epoch. Nothing is claimed of the
/// result, which depends on the clock's reading.
#[verifier::external_body]
fn since_unix_epoch(t: &std::time::SystemTime) -> Result<std::time::Duration, std::time::SystemTimeError> {
    t.duration_since(std::time::UNIX_EPOCH)
}

/// Trusted: calls `Duration::as_secs`. A `Duration` is opaque here, so
/// nothing is claimed of the result.
#[verifier::external_body]
fn whole_secs(d: &std::time::Duration) -> u64 {
    d.as_secs()
}

/// The current time in seconds since the Unix epoch (0 if the clock is set
/// before it). Nothing is stated of the result, which is the clock's.
pub fn current_time_secs() -> u64 {
    match since_unix_epoch(&system_now()) {
        Ok(d) => whole_secs(&d),
        Err(_) => 0,
    }
}

/// The seconds between a last access and now: zero when the access lies in
/// the future.
pub fn elapsed_secs(now: u64, last_access: u64) -> (r: u64)
    ensures
        r == if now >= last_access { now - last_access } else { 0 },
{
    now.saturating_sub(last_access)
}

} // verus!
