//! The launcher's IPC protocol: requests, responses, the commands a daemon
//! receives, how it answers them, and where its socket lives.

use vstd::prelude::*;
use crate::text::{str_eq, chars_of};
use crate::item::{opt_view, copy_opt};

verus! {

/// Commands that can be sent to the launcher via IPC.
#[derive(Debug, Clone)]
pub enum IpcCommand {
    /// Show the launcher with the given mode.
    Show { mode: String, source: Option<String> },
    /// Hide the launcher.
    Hide,
    /// Toggle visibility.
    Toggle { mode: String },
    /// Query status.
    Status,
}

/// The abstract value of an [`IpcCommand`].
pub enum IpcCommandView {
    Show { mode: Seq<char>, source: Option<Seq<char>> },
    Hide,
    Toggle { mode: Seq<char> },
    Status,
}

impl View for IpcCommand {
    type V = IpcCommandView;

    open spec fn view(&self) -> IpcCommandView {
        match self {
            IpcCommand::Show { mode, source } => IpcCommandView::Show {
                mode: mode@,
                source: opt_view(*source),
            },
            IpcCommand::Hide => IpcCommandView::Hide,
            IpcCommand::Toggle { mode } => IpcCommandView::Toggle { mode: mode@ },
            IpcCommand::Status => IpcCommandView::Status,
        }
    }
}

/// The view of an optional command.
pub open spec fn opt_command_view(c: Option<IpcCommand>) -> Option<IpcCommandView> {
    match c {
        Some(c) => Some(c@),
        None => None,
    }
}

/// The string arguments of a request (`mode` and `source`); an argument that
/// is absent or not a string is `None`.
pub struct RequestArgs {
    pub mode: Option<String>,
    pub source: Option<String>,
}

/// IPC request.
pub struct Request {
    pub command: String,
    pub args: RequestArgs,
}

/// The abstract value of a [`Request`].
pub struct RequestView {
    pub command: Seq<char>,
    pub mode: Option<Seq<char>>,
    pub source: Option<Seq<char>>,
}

impl View for Request {
    type V = RequestView;

    open spec fn view(&self) -> RequestView {
        RequestView {
            command: self.command@,
            mode: opt_view(self.args.mode),
            source: opt_view(self.args.source),
        }
    }
}

/// IPC response; `data` is JSON text.
pub struct Response {
    pub success: bool,
    pub data: Option<String>,
    pub error: Option<String>,
}

/// The abstract value of a [`Response`].
pub struct ResponseView {
    pub success: bool,
    pub data: Option<Seq<char>>,
    pub error: Option<Seq<char>>,
}

impl View for Response {
    type V = ResponseView;

    open spec fn view(&self) -> ResponseView {
        ResponseView {
            success: self.success,
            data: opt_view(self.data),
            error: opt_view(self.error),
        }
    }
}

/// A successful response without data.
pub open spec fn ok_view() -> ResponseView {
    ResponseView { success: true, data: None, error: None }
}

/// A failed response with the given message.
pub open spec fn error_view(msg: Seq<char>) -> ResponseView {
    ResponseView { success: false, data: None, error: Some(msg) }
}

impl Response {
    /// A successful response without data.
    pub fn ok() -> (r: Response)
        ensures
            r@ == ok_view(),
    {
        Response { success: true, data: None, error: None }
    }

    /// A successful response carrying JSON text.
    pub fn ok_with_data(data: &str) -> (r: Response)
        ensures
            r@ == (ResponseView { success: true, data: Some(data@), error: None }),
    {
        Response { success: true, data: Some(data.to_owned()), error: None }
    }

    /// A failed response with the given message.
    pub fn error(msg: &str) -> (r: Response)
        ensures
            r@ == error_view(msg@),
    {
        Response { success: false, data: None, error: Some(msg.to_owned()) }
    }
}

/// The data of the answer to `status`: `{"running":true}`.
pub open spec fn status_data() -> Seq<char> {
    "{\"running\":true}"@
}

/// The mode a request asks for: its `mode` argument, `drun` by default.
pub open spec fn requested_mode(r: RequestView) -> Seq<char> {
    match r.mode {
        Some(m) => m,
        None => "drun"@,
    }
}

/// How the daemon handles a request: the command it passes on to its main
/// loop, if any, and the response it writes back.
pub open spec fn dispatch_view(r: RequestView) -> (Option<IpcCommandView>, ResponseView) {
    if r.command == "show"@ {
        (Some(IpcCommandView::Show { mode: requested_mode(r), source: r.source }), ok_view())
    } else if r.command == "hide"@ {
        (Some(IpcCommandView::Hide), ok_view())
    } else if r.command == "toggle"@ {
        (Some(IpcCommandView::Toggle { mode: requested_mode(r) }), ok_view())
    } else if r.command == "status"@ {
        (
            Some(IpcCommandView::Status),
            ResponseView { success: true, data: Some(status_data()), error: None },
        )
    } else {
        (None, error_view("Unknown command: "@ + r.command))
    }
}

/// The mode argument of a request, `drun` by default.
fn mode_or_default(mode: &Option<String>) -> (r: String)
    ensures
        r@ == match opt_view(*mode) {
            Some(m) => m,
            None => "drun"@,
        },
{
    match mode {
        Some(m) => m.clone(),
        None => "drun".to_owned(),
    }
}

/// Handle a decoded request, as [`dispatch_view`] states.
pub fn dispatch_request(req: &Request) -> (r: (Option<IpcCommand>, Response))
    ensures
        (opt_command_view(r.0), r.1@) == dispatch_view(req@),
{
    let command = req.command.as_str();
    if str_eq(command, "show") {
        let mode = mode_or_default(&req.args.mode);
        (Some(IpcCommand::Show { mode, source: copy_opt(&req.args.source) }), Response::ok())
    } else if str_eq(command, "hide") {
        (Some(IpcCommand::Hide), Response::ok())
    } else if str_eq(command, "toggle") {
        let mode = mode_or_default(&req.args.mode);
        (Some(IpcCommand::Toggle { mode }), Response::ok())
    } else if str_eq(command, "status") {
        (Some(IpcCommand::Status), Response::ok_with_data("{\"running\":true}"))
    } else {
        let mut msg = "Unknown command: ".to_owned();
        msg.append(command);
        (None, Response::error(msg.as_str()))
    }
}

/// The response to a request that could not be decoded.
pub fn invalid_request(detail: &str) -> (r: Response)
    ensures
        r@ == error_view("Invalid request: "@ + detail@),
{
    let mut msg = "Invalid request: ".to_owned();
    msg.append(detail);
    Response::error(msg.as_str())
}

/// The arguments with which the daemon starts a launcher for a command:
/// `--mode` and, for `show` with a source, `--source`; `hide` and `status`
/// start nothing.
pub open spec fn spawn_args_view(c: IpcCommandView) -> Option<Seq<Seq<char>>> {
    match c {
        IpcCommandView::Show { mode, source } => Some(
            seq!["--mode"@, mode] + match source {
                Some(s) => seq!["--source"@, s],
                None => Seq::empty(),
            },
        ),
        IpcCommandView::Toggle { mode } => Some(seq!["--mode"@, mode]),
        _ => None,
    }
}

/// The daemon starts a launcher for every show and toggle request: with
/// `--mode` and the mode, followed by `--source` and the source exactly when
/// a show request names one; hide and status start nothing.
pub proof fn lemma_spawn_args_shape(c: IpcCommandView)
    ensures
        spawn_args_view(c) is Some <==> (c is Show || c is Toggle),
        c matches IpcCommandView::Show { mode, source } ==> {
            let args = spawn_args_view(c)->0;
            &&& args.len() == if source is Some { 4int } else { 2int }
            &&& args[0] == "--mode"@
            &&& args[1] == mode
            &&& source is Some ==> args[2] == "--source"@ && args[3] == source->0
        },
        c matches IpcCommandView::Toggle { mode } ==> spawn_args_view(c)->0 =~= seq!["--mode"@, mode],
{
    if let IpcCommandView::Show { mode, source } = c {
        let args = spawn_args_view(c)->0;
        match source {
            Some(s) => assert(args =~= seq!["--mode"@, mode, "--source"@, s]),
            None => assert(args =~= seq!["--mode"@, mode]),
        }
    }
}

/// The views of a list of strings.
pub open spec fn strings_view(v: Seq<String>) -> Seq<Seq<char>> {
    v.map_values(|s: String| s@)
}

/// The arguments with which the daemon starts a launcher for a command, as
/// [`spawn_args_view`] states.
pub fn spawn_args(cmd: &IpcCommand) -> (r: Option<Vec<String>>)
    ensures
        match r {
            Some(v) => spawn_args_view(cmd@) == Some(strings_view(v@)),
            None => spawn_args_view(cmd@) is None,
        },
{
    match cmd {
        IpcCommand::Show { mode, source } => {
            let mut v: Vec<String> = Vec::new();
            v.push("--mode".to_owned());
            v.push(mode.clone());
            if let Some(s) = source {
                v.push("--source".to_owned());
                v.push(s.clone());
            }
            proof {
                match source {
                    Some(s) => assert(strings_view(v@) =~= seq!["--mode"@, mode@] + seq![
                        "--source"@,
                        s@,
                    ]),
                    None => assert(strings_view(v@) =~= seq!["--mode"@, mode@] + Seq::<
                        Seq<char>,
                    >::empty()),
                }
            }
            Some(v)
        },
        IpcCommand::Toggle { mode } => {
            let mut v: Vec<String> = Vec::new();
            v.push("--mode".to_owned());
            v.push(mode.clone());
            assert(strings_view(v@) =~= seq!["--mode"@, mode@]);
            Some(v)
        },
        IpcCommand::Hide => None,
        IpcCommand::Status => None,
    }
}

/// `dir` joined with `name`, as `Path::join` does on Unix: an absolute
/// `name` replaces `dir`; otherwise a `/` goes between them unless `dir` is
/// empty or already ends with one.
pub open spec fn join_path(dir: Seq<char>, name: Seq<char>) -> Seq<char> {
    if name.len() > 0 && name[0] == '/' {
        name
    } else if dir.len() == 0 {
        name
    } else if dir.last() == '/' {
        dir + name
    } else {
        dir + seq!['/'] + name
    }
}

/// The path of a socket named `name` in the runtime directory, or in `/tmp`
/// where there is none.
pub open spec fn socket_path_view(runtime_dir: Option<Seq<char>>, name: Seq<char>) -> Seq<char> {
    join_path(
        match runtime_dir {
            Some(d) => d,
            None => "/tmp"@,
        },
        name,
    )
}

/// `dir` joined with `name`, as [`join_path`] states.
pub fn join(dir: &str, name: &str) -> (r: String)
    ensures
        r@ == join_path(dir@, name@),
{
    let n = chars_of(name);
    if n.len() > 0 && n[0] == '/' {
        return name.to_owned();
    }
    let d = chars_of(dir);
    let mut r = dir.to_owned();
    if d.len() > 0 && d[d.len() - 1] != '/' {
        r.append("/");
        proof {
            reveal_strlit("/");
            assert("/"@ =~= seq!['/']);
        }
    }
    r.append(name);
    r
}

/// The path of the socket `name` in the runtime directory, `/tmp` where
/// there is none.
pub fn socket_path_in(runtime_dir: Option<&str>, name: &str) -> (r: String)
    ensures
        r@ == socket_path_view(
            match runtime_dir {
                Some(d) => Some(d@),
                None => None,
            },
            name@,
        ),
{
    let dir = match runtime_dir {
        Some(d) => d,
        None => "/tmp",
    };
    join(dir, name)
}

/// The path of a mode's frecency cache: `<mode>.cache` in the `garlaunch`
/// directory of the cache directory, `~/.cache` where there is none.
pub open spec fn cache_file_path_view(cache_dir: Option<Seq<char>>, mode: Seq<char>) -> Seq<char> {
    let base = match cache_dir {
        Some(d) => d,
        None => "~/.cache"@,
    };
    join_path(join_path(base, "garlaunch"@), mode + ".cache"@)
}

/// The path of a mode's frecency cache, as [`cache_file_path_view`] states.
pub fn cache_file_path(cache_dir: Option<&str>, mode: &str) -> (r: String)
    ensures
        r@ == cache_file_path_view(
            match cache_dir {
                Some(d) => Some(d@),
                None => None,
            },
            mode@,
        ),
{
    let base = match cache_dir {
        Some(d) => d,
        None => "~/.cache",
    };
    let dir = join(base, "garlaunch");
    let mut file = mode.to_owned();
    file.append(".cache");
    join(dir.as_str(), file.as_str())
}

/// The directories searched for `.desktop` files, in order: the user's
/// applications, the system's, NixOS's, the user's and the system's
/// Flatpak exports, and Snap's.
pub open spec fn desktop_dirs_view(data_home: Option<Seq<char>>) -> Seq<Seq<char>> {
    let user = match data_home {
        Some(h) => seq![join_path(h, "applications"@)],
        None => Seq::empty(),
    };
    let user_flatpak = match data_home {
        Some(h) => seq![join_path(h, "flatpak/exports/share/applications"@)],
        None => Seq::empty(),
    };
    user + seq![
        "/usr/share/applications"@,
        "/usr/local/share/applications"@,
        "/run/current-system/sw/share/applications"@,
    ] + user_flatpak + seq![
        "/var/lib/flatpak/exports/share/applications"@,
        "/var/lib/snapd/desktop/applications"@,
    ]
}

/// The directories searched for `.desktop` files, as [`desktop_dirs_view`]
/// states.
pub fn desktop_dirs(data_home: Option<&str>) -> (r: Vec<String>)
    ensures
        strings_view(r@) == desktop_dirs_view(
            match data_home {
                Some(h) => Some(h@),
                None => None,
            },
        ),
{
    let mut dirs: Vec<String> = Vec::new();
    if let Some(h) = data_home {
        dirs.push(join(h, "applications"));
    }
    dirs.push("/usr/share/applications".to_owned());
    dirs.push("/usr/local/share/applications".to_owned());
    dirs.push("/run/current-system/sw/share/applications".to_owned());
    if let Some(h) = data_home {
        dirs.push(join(h, "flatpak/exports/share/applications"));
    }
    dirs.push("/var/lib/flatpak/exports/share/applications".to_owned());
    dirs.push("/var/lib/snapd/desktop/applications".to_owned());
    proof {
        let hv = match data_home {
            Some(h) => Some(h@),
            None => None,
        };
        assert(strings_view(dirs@) =~= desktop_dirs_view(hv));
    }
    dirs
}

/// The entries of a `PATH`-like value: the parts between colons.
pub fn path_entries(path_var: &str) -> (r: Vec<String>)
    ensures
        strings_view(r@) == crate::cache::split_char(path_var@, ':'),
{
    let chars = chars_of(path_var);
    let parts = crate::cache::split_chars(&chars, ':');
    let mut r: Vec<String> = Vec::new();
    let mut i: usize = 0;
    while i < parts.len()
        invariant
            i <= parts@.len(),
            strings_view(r@) == parts@.take(i as int).map_values(|p: Vec<char>| p@),
        decreases parts@.len() - i,
    {
        let ghost before = strings_view(r@);
        let part = crate::text::string_from(parts[i].as_slice());
        assert(part@ == parts@[i as int]@);
        r.push(part);
        assert(strings_view(r@) =~= before.push(parts@[i as int]@));
        assert(parts@.take(i + 1) =~= parts@.take(i as int).push(parts@[i as int]));
        i = i + 1;
        assert(strings_view(r@) =~= parts@.take(i as int).map_values(|p: Vec<char>| p@));
    }
    assert(parts@.take(parts@.len() as int) =~= parts@);
    r
}

} // verus!
