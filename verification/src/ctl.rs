//! The control client: the request each subcommand sends, the launcher it
//! starts itself when no daemon answers, and the agreement of both with the
//! daemon.

use vstd::prelude::*;
use crate::text::chars_of;
use crate::item::{opt_view, copy_opt};
use crate::ipc::{
    Request, RequestArgs, RequestView, IpcCommandView, dispatch_view, spawn_args_view,
    strings_view, ok_view,
};

verus! {

/// A subcommand of the control client.
pub enum CtlCommand {
    /// Show the launcher.
    Show { mode: String, source: Option<String> },
    /// Hide the launcher.
    Hide,
    /// Toggle the launcher.
    Toggle { mode: String },
    /// Get launcher status.
    Status,
}

impl View for CtlCommand {
    type V = IpcCommandView;

    /// The daemon command that a subcommand asks for.
    open spec fn view(&self) -> IpcCommandView {
        match self {
            CtlCommand::Show { mode, source } => IpcCommandView::Show {
                mode: mode@,
                source: opt_view(*source),
            },
            CtlCommand::Hide => IpcCommandView::Hide,
            CtlCommand::Toggle { mode } => IpcCommandView::Toggle { mode: mode@ },
            CtlCommand::Status => IpcCommandView::Status,
        }
    }
}

/// The request a subcommand sends.
pub open spec fn ctl_request_view(c: IpcCommandView) -> RequestView {
    match c {
        IpcCommandView::Show { mode, source } => RequestView {
            command: "show"@,
            mode: Some(mode),
            source,
        },
        IpcCommandView::Hide => RequestView { command: "hide"@, mode: None, source: None },
        IpcCommandView::Toggle { mode } => RequestView {
            command: "toggle"@,
            mode: Some(mode),
            source: None,
        },
        IpcCommandView::Status => RequestView { command: "status"@, mode: None, source: None },
    }
}

/// The request a subcommand sends, as [`ctl_request_view`] states.
pub fn ctl_request(cmd: &CtlCommand) -> (r: Request)
    ensures
        r@ == ctl_request_view(cmd@),
{
    match cmd {
        CtlCommand::Show { mode, source } => Request {
            command: "show".to_owned(),
            args: RequestArgs { mode: Some(mode.clone()), source: copy_opt(source) },
        },
        CtlCommand::Hide => Request {
            command: "hide".to_owned(),
            args: RequestArgs { mode: None, source: None },
        },
        CtlCommand::Toggle { mode } => Request {
            command: "toggle".to_owned(),
            args: RequestArgs { mode: Some(mode.clone()), source: None },
        },
        CtlCommand::Status => Request {
            command: "status".to_owned(),
            args: RequestArgs { mode: None, source: None },
        },
    }
}

/// The arguments with which the client starts `garlaunch` itself when the
/// daemon is not running: `--mode` (and `--source`) for show and toggle;
/// hide and status start nothing.
pub open spec fn fallback_args_view(c: IpcCommandView) -> Option<Seq<Seq<char>>> {
    match c {
        IpcCommandView::Show { mode, source } => Some(
            seq!["--mode"@, mode] + match source {
                Some(s) => seq!["--source"@, s],
                None => Seq::empty(),
            },
        ),
        IpcCommandView::Toggle { mode } => Some(seq!["--mode"@, mode]),
        _ => None,
    }
}

/// Without a daemon the client starts a launcher itself for every show and
/// toggle subcommand: with `--mode` and the mode, followed by `--source` and
/// the source exactly when a show names one; hide and status start nothing.
pub proof fn lemma_fallback_args_shape(c: IpcCommandView)
    ensures
        fallback_args_view(c) is Some <==> (c is Show || c is Toggle),
        c matches IpcCommandView::Show { mode, source } ==> {
            let args = fallback_args_view(c)->0;
            &&& args.len() == if source is Some { 4int } else { 2int }
            &&& args[0] == "--mode"@
            &&& args[1] == mode
            &&& source is Some ==> args[2] == "--source"@ && args[3] == source->0
        },
        c matches IpcCommandView::Toggle { mode } ==> fallback_args_view(c)->0 =~= seq!["--mode"@, mode],
{
    if let IpcCommandView::Show { mode, source } = c {
        let args = fallback_args_view(c)->0;
        match source {
            Some(s) => assert(args =~= seq!["--mode"@, mode, "--source"@, s]),
            None => assert(args =~= seq!["--mode"@, mode]),
        }
    }
}

/// The arguments with which the client starts `garlaunch` itself, as
/// [`fallback_args_view`] states.
pub fn fallback_args(cmd: &CtlCommand) -> (r: Option<Vec<String>>)
    ensures
        match r {
            Some(v) => fallback_args_view(cmd@) == Some(strings_view(v@)),
            None => fallback_args_view(cmd@) is None,
        },
{
    match cmd {
        CtlCommand::Show { mode, source } => {
            let mut v: Vec<String> = Vec::new();
            v.push("--mode".to_owned());
            v.push(mode.clone());
            if let Some(s) = source {
                v.push("--source".to_owned());
                v.push(s.clone());
            }
            proof {
                match source {
                    Some(s) => assert(strings_view(v@) =~= seq!["--mode"@, mode@] + seq![
                        "--source"@,
                        s@,
                    ]),
                    None => assert(strings_view(v@) =~= seq!["--mode"@, mode@] + Seq::<
                        Seq<char>,
                    >::empty()),
                }
            }
            Some(v)
        },
        CtlCommand::Toggle { mode } => {
            let mut v: Vec<String> = Vec::new();
            v.push("--mode".to_owned());
            v.push(mode.clone());
            assert(strings_view(v@) =~= seq!["--mode"@, mode@]);
            Some(v)
        },
        CtlCommand::Hide => None,
        CtlCommand::Status => None,
    }
}

/// `pat` occurs in `s`.
pub open spec fn contains_seq(s: Seq<char>, pat: Seq<char>) -> bool {
    exists|i: int| 0 <= i <= s.len() - pat.len() && #[trigger] s.subrange(i, i + pat.len()) == pat
}

/// Whether `pat` occurs in `s`.
pub fn chars_contain(s: &[char], pat: &[char]) -> (r: bool)
    ensures
        r == contains_seq(s@, pat@),
{
    if pat.len() > s.len() {
        return false;
    }
    let mut i: usize = 0;
    while i <= s.len() - pat.len()
        invariant
            pat@.len() <= s@.len(),
            i <= s@.len() - pat@.len() + 1,
            forall|k: int| 0 <= k < i ==> #[trigger] s@.subrange(k, k + pat@.len()) != pat@,
        decreases s@.len() - pat@.len() + 1 - i,
    {
        let mut j: usize = 0;
        let mut same = true;
        while same && j < pat.len()
            invariant
                i + pat@.len() <= s@.len(),
                s@.len() == s.len(),
                pat@.len() == pat.len(),
                j <= pat@.len(),
                forall|t: int| 0 <= t < j ==> s@[i + t] == pat@[t],
                !same ==> j < pat@.len() && s@[i + j] != pat@[j as int],
            decreases pat@.len() - j + (if same { 1int } else { 0int }),
        {
            if s[i + j] == pat[j] {
                j = j + 1;
            } else {
                same = false;
            }
        }
        if j == pat.len() {
            assert(s@.subrange(i as int, i + pat@.len()) =~= pat@);
            return true;
        }
        assert(s@.subrange(i as int, i + pat@.len())[j as int] != pat@[j as int]);
        i = i + 1;
    }
    false
}

/// The connection error means that no daemon is listening: its text says
/// that the socket does not exist or that the connection was refused.
pub open spec fn daemon_unreachable_view(msg: Seq<char>) -> bool {
    contains_seq(msg, "No such file"@) || contains_seq(msg, "Connection refused"@)
}

/// Whether a connection error means that no daemon is listening.
pub fn daemon_unreachable(msg: &str) -> (r: bool)
    ensures
        r == daemon_unreachable_view(msg@),
{
    let m = chars_of(msg);
    let a = chars_of("No such file");
    let b = chars_of("Connection refused");
    chars_contain(&m, &a) || chars_contain(&m, &b)
}

/// The daemon understands every request the client sends: it passes on
/// exactly the command the subcommand asks for, and answers with success.
pub proof fn lemma_request_understood(c: IpcCommandView)
    ensures
        dispatch_view(ctl_request_view(c)).0 == Some(c),
        dispatch_view(ctl_request_view(c)).1.success,
        dispatch_view(ctl_request_view(c)).1.error is None,
{
    reveal_strlit("show");
    reveal_strlit("hide");
    reveal_strlit("toggle");
    reveal_strlit("status");
    assert("hide"@[0] != "show"@[0]);
    assert("toggle"@[0] != "show"@[0] && "toggle"@[0] != "hide"@[0]);
    assert("status"@[1] != "show"@[1] && "status"@[0] != "hide"@[0] && "status"@[0]
        != "toggle"@[0]);
}

/// Without a daemon the client starts the launcher just as the daemon would
/// for the same subcommand.
pub proof fn lemma_fallback_like_daemon(c: IpcCommandView)
    ensures
        fallback_args_view(c) == spawn_args_view(c),
{
}

} // verus!
