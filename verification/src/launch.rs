//! wsb: starting a sandboxed grpc_execd for a workspace.
//!
//! A launch takes one step at a time: it says what to do, and is told what came
//! of it, until it ends with an exit code or a failure.

use crate::path::{
    is_parent, law_within_parent, opt_path, parent, parent_of, path_copy, path_list, starts_with,
    within,
};
use crate::search::{
    find_binary, lookup_of, not_found_message, question, search_start, search_step, Answer,
    AnswerView, BinarySearch, LookupView, Query, QueryView, SearchView,
};
use crate::status::{child_code, law_child_code_is_preserved, wait_for_child, FAILED_CODE};
use crate::text::{
    decimal, law_signed_decimal_reads_back, lossy_text, lossy_utf8, push_decimal,
};
use crate::workspace::{
    alive, bytes_of, check_stale, cleanup, law_pid_files, metadata_path_of, opt_bytes, opt_text,
    pid_in, quotes_fit, recorded_pid, resolve_binary_path, resolve_path, resolved,
    setup_error_text, setup_layout, setup_of, stale_error_text, stale_files, toml_entry, Layout,
    LayoutView, Probe, SetupError, SetupErrorView, StaleError,
};
use vstd::prelude::*;
use vstd::string::*;
use vstd::utf8::{encode_utf8, valid_utf8};

verus! {

/// How long the socket is waited for.
pub const SOCKET_TIMEOUT_SECS: u64 = 10;

/// The same in nanoseconds.
pub const SOCKET_TIMEOUT_NANOS: u64 = 10_000_000_000;

/// How long to pause between two looks for the socket, in milliseconds.
pub const SOCKET_POLL_MILLIS: u64 = 50;

// ---------------------------------------------------------------------------
// The sandbox's command line
// ---------------------------------------------------------------------------

/// A program and its arguments.
#[derive(Debug)]
pub struct SandboxCommand {
    pub program: Vec<u8>,
    pub args: Vec<Vec<u8>>,
}

/// What a [`SandboxCommand`] is.
#[verifier::ext_equal]
pub struct SandboxCommandView {
    pub program: Seq<u8>,
    pub args: Seq<Seq<u8>>,
}

impl View for SandboxCommand {
    type V = SandboxCommandView;

    open spec fn view(&self) -> SandboxCommandView {
        SandboxCommandView { program: self.program@, args: path_list(self.args@) }
    }
}

/// The sandbox's arguments: its home, the workspace writable, its log, the
/// directory of grpc_execd read-only unless it lies in the workspace, and then
/// grpc_execd with its socket.
pub open spec fn sandbox_args(layout: LayoutView, execd: Seq<u8>, execd_dir: Seq<u8>) -> Seq<
    Seq<u8>,
> {
    let mounts = seq![
        bytes_of("--home"@),
        layout.home_dir,
        bytes_of("--rw"@),
        layout.workspace,
        bytes_of("--log-file"@),
        layout.log_path,
    ];
    let execd_mount = if within(execd, layout.workspace) {
        seq![]
    } else {
        seq![bytes_of("--ro"@), execd_dir]
    };
    mounts + execd_mount + seq![
        bytes_of("--"@),
        execd,
        bytes_of("-addr"@),
        layout.socket_path,
    ]
}

fn push_text(args: &mut Vec<Vec<u8>>, arg: &str)
    ensures
        path_list(final(args)@) == path_list(old(args)@).push(bytes_of(arg@)),
{
    let ghost before = path_list(args@);
    args.push(path_copy(arg.as_bytes()));
    assert(path_list(args@) =~= before.push(bytes_of(arg@)));
}

fn push_path(args: &mut Vec<Vec<u8>>, arg: &Vec<u8>)
    ensures
        path_list(final(args)@) == path_list(old(args)@).push(arg@),
{
    let ghost before = path_list(args@);
    args.push(path_copy(arg.as_slice()));
    assert(path_list(args@) =~= before.push(arg@));
}

/// The command that starts the sandbox with grpc_execd in it; `None` where
/// grpc_execd has no parent directory that could be mounted.
pub fn sandbox_command(layout: &Layout, sandbox: Vec<u8>, execd: &Vec<u8>) -> (res: Option<
    SandboxCommand,
>)
    ensures
        match parent_of(execd@) {
            Some(dir) => res matches Some(command) && command@ == (SandboxCommandView {
                program: sandbox@,
                args: sandbox_args(layout@, execd@, dir),
            }),
            None => res is None,
        },
{
    // The grpc_execd binary must be visible inside the sandbox.
    // Mount its parent directory read-only.
    let dir = match parent(execd.as_slice()) {
        Some(dir) => dir,
        None => {
            return None;
        },
    };
    let mut args: Vec<Vec<u8>> = Vec::new();
    push_text(&mut args, "--home");
    push_path(&mut args, &layout.home_dir);
    push_text(&mut args, "--rw");
    push_path(&mut args, &layout.workspace);
    push_text(&mut args, "--log-file");
    push_path(&mut args, &layout.log_path);
    // Only add --ro if grpc_execd isn't already under the workspace.
    if !starts_with(execd.as_slice(), layout.workspace.as_slice()) {
        push_text(&mut args, "--ro");
        push_path(&mut args, &dir);
    }
    push_text(&mut args, "--");
    push_path(&mut args, execd);
    push_text(&mut args, "-addr");
    push_path(&mut args, &layout.socket_path);
    assert(path_list(args@) =~= sandbox_args(layout@, execd@, dir@));
    Some(SandboxCommand { program: sandbox, args })
}

// ---------------------------------------------------------------------------
// Waiting for the socket
// ---------------------------------------------------------------------------

/// What is looked at while the socket is waited for.
#[derive(Debug, Clone, Copy, PartialEq, Eq, Structural)]
pub enum SocketStage {
    /// Whether the socket is there.
    Socket,
    /// Whether the time is up.
    Clock,
    /// Whether the sandbox still runs.
    Child,
}

/// What came of a look.
#[derive(Debug)]
pub enum SocketLook {
    /// The socket is there.
    Present,
    /// The socket is not there.
    Absent,
    /// This much time has passed, in nanoseconds.
    Elapsed(u64),
    /// The sandbox still runs, or that could not be told.
    Alive,
    /// The sandbox ended, with the status given in words.
    Ended(String),
}

/// What a [`SocketLook`] is.
#[verifier::ext_equal]
pub enum SocketLookView {
    Present,
    Absent,
    Elapsed(u64),
    Alive,
    Ended(Seq<char>),
}

impl View for SocketLook {
    type V = SocketLookView;

    open spec fn view(&self) -> SocketLookView {
        match self {
            SocketLook::Present => SocketLookView::Present,
            SocketLook::Absent => SocketLookView::Absent,
            SocketLook::Elapsed(nanos) => SocketLookView::Elapsed(*nanos),
            SocketLook::Alive => SocketLookView::Alive,
            SocketLook::Ended(status) => SocketLookView::Ended(status@),
        }
    }
}

/// What follows a look.
#[derive(Debug)]
pub enum SocketStep {
    /// Grpc_execd is ready.
    Ready,
    /// Look at this next.
    Look(SocketStage),
    /// Pause, and look for the socket again.
    Pause,
    /// The time is up: the sandbox is to be killed.
    TimedOut,
    /// The sandbox ended too early.
    ExitedEarly(String),
}

/// What a [`SocketStep`] is.
#[verifier::ext_equal]
pub enum SocketStepView {
    Ready,
    Look(SocketStage),
    Pause,
    TimedOut,
    ExitedEarly(Seq<char>),
}

impl View for SocketStep {
    type V = SocketStepView;

    open spec fn view(&self) -> SocketStepView {
        match self {
            SocketStep::Ready => SocketStepView::Ready,
            SocketStep::Look(stage) => SocketStepView::Look(*stage),
            SocketStep::Pause => SocketStepView::Pause,
            SocketStep::TimedOut => SocketStepView::TimedOut,
            SocketStep::ExitedEarly(status) => SocketStepView::ExitedEarly(status@),
        }
    }
}

/// What follows a look while the socket is waited for. A look at something else
/// than was asked for is repeated.
pub open spec fn socket_step(stage: SocketStage, look: SocketLookView) -> SocketStepView {
    match (stage, look) {
        (SocketStage::Socket, SocketLookView::Present) => SocketStepView::Ready,
        (SocketStage::Socket, SocketLookView::Absent) => SocketStepView::Look(SocketStage::Clock),
        (SocketStage::Clock, SocketLookView::Elapsed(nanos)) => if nanos > SOCKET_TIMEOUT_NANOS {
            SocketStepView::TimedOut
        } else {
            SocketStepView::Look(SocketStage::Child)
        },
        (SocketStage::Child, SocketLookView::Alive) => SocketStepView::Pause,
        (SocketStage::Child, SocketLookView::Ended(status)) => SocketStepView::ExitedEarly(status),
        _ => SocketStepView::Look(stage),
    }
}

/// Poll for the socket file to appear, checking that the child hasn't
/// exited prematurely.
pub fn wait_for_socket(stage: SocketStage, look: SocketLook) -> (res: SocketStep)
    ensures
        res@ == socket_step(stage, look@),
{
    match (stage, look) {
        (SocketStage::Socket, SocketLook::Present) => SocketStep::Ready,
        (SocketStage::Socket, SocketLook::Absent) => SocketStep::Look(SocketStage::Clock),
        (SocketStage::Clock, SocketLook::Elapsed(nanos)) => {
            if nanos > SOCKET_TIMEOUT_NANOS {
                SocketStep::TimedOut
            } else {
                SocketStep::Look(SocketStage::Child)
            }
        },
        (SocketStage::Child, SocketLook::Alive) => SocketStep::Pause,
        (SocketStage::Child, SocketLook::Ended(status)) => SocketStep::ExitedEarly(status),
        (stage, _) => SocketStep::Look(stage),
    }
}

// ---------------------------------------------------------------------------
// The launch
// ---------------------------------------------------------------------------

/// What was asked for on the command line.
#[derive(Debug)]
pub struct StartArgs {
    /// Path to the workspace directory.
    pub workspace: Vec<u8>,
    /// Path to the sandbox binary (default: auto-discover).
    pub sandbox_bin: Option<Vec<u8>>,
    /// Path to the grpc_execd binary (default: auto-discover).
    pub grpc_execd_bin: Option<Vec<u8>>,
}

/// What the launcher finds in its environment.
#[derive(Debug)]
pub struct Environment {
    /// BUILD_WORKING_DIRECTORY.
    pub build_dir: Option<String>,
    /// XDG_DATA_HOME.
    pub xdg_data_home: Option<String>,
    /// HOME.
    pub home: Option<String>,
    /// PATH.
    pub path: Option<Vec<u8>>,
    /// The path of the launcher itself.
    pub exe: Option<Vec<u8>>,
}

/// What a launch goes by: the command line and the environment.
#[verifier::ext_equal]
pub struct Setting {
    pub workspace: Seq<u8>,
    pub sandbox_bin: Option<Seq<u8>>,
    pub grpc_execd_bin: Option<Seq<u8>>,
    pub build_dir: Option<Seq<u8>>,
    pub xdg_data_home: Option<Seq<u8>>,
    pub home: Option<Seq<u8>>,
    pub path: Option<Seq<u8>>,
    pub exe: Option<Seq<u8>>,
}

pub open spec fn setting_of(args: StartArgs, env: Environment) -> Setting {
    Setting {
        workspace: args.workspace@,
        sandbox_bin: opt_path(args.sandbox_bin),
        grpc_execd_bin: opt_path(args.grpc_execd_bin),
        build_dir: opt_bytes(env.build_dir),
        xdg_data_home: opt_bytes(env.xdg_data_home),
        home: opt_bytes(env.home),
        path: opt_path(env.path),
        exe: opt_path(env.exe),
    }
}

/// Why a launch fails.
#[derive(Debug)]
pub enum LaunchFailure {
    /// The workspace could not be resolved.
    Resolve { shown: String },
    /// The workspace is not a directory.
    NotADirectory { shown: String },
    /// The session cannot be laid out.
    Setup(SetupError),
    /// The state directory could not be made.
    StateDir { shown: String },
    /// The runtime directory could not be made.
    RuntimeDir { shown: String },
    /// The workspace's metadata could not be written.
    Metadata { shown: String },
    /// Another session is running.
    Stale(StaleError),
    /// The PID file could not be created.
    Claim,
    /// A program was not found.
    NotFound { name: String },
    /// The path of grpc_execd could not be resolved.
    ResolveExecd,
    /// The path of grpc_execd has no parent.
    NoParent,
    /// The sandbox could not be spawned.
    Spawn,
    /// The sandbox's PID could not be recorded.
    RecordPid,
    /// The socket did not appear in time.
    TimedOut,
    /// The sandbox ended before the socket appeared.
    ExitedEarly { status: String },
}

/// What a [`LaunchFailure`] is.
#[verifier::ext_equal]
pub enum LaunchFailureView {
    Resolve { shown: Seq<char> },
    NotADirectory { shown: Seq<char> },
    Setup(SetupErrorView),
    StateDir { shown: Seq<char> },
    RuntimeDir { shown: Seq<char> },
    Metadata { shown: Seq<char> },
    Stale(StaleError),
    Claim,
    NotFound { name: Seq<char> },
    ResolveExecd,
    NoParent,
    Spawn,
    RecordPid,
    TimedOut,
    ExitedEarly { status: Seq<char> },
}

impl View for LaunchFailure {
    type V = LaunchFailureView;

    open spec fn view(&self) -> LaunchFailureView {
        match self {
            LaunchFailure::Resolve { shown } => LaunchFailureView::Resolve { shown: shown@ },
            LaunchFailure::NotADirectory { shown } => LaunchFailureView::NotADirectory {
                shown: shown@,
            },
            LaunchFailure::Setup(e) => LaunchFailureView::Setup(e@),
            LaunchFailure::StateDir { shown } => LaunchFailureView::StateDir { shown: shown@ },
            LaunchFailure::RuntimeDir { shown } => LaunchFailureView::RuntimeDir { shown: shown@ },
            LaunchFailure::Metadata { shown } => LaunchFailureView::Metadata { shown: shown@ },
            LaunchFailure::Stale(e) => LaunchFailureView::Stale(*e),
            LaunchFailure::Claim => LaunchFailureView::Claim,
            LaunchFailure::NotFound { name } => LaunchFailureView::NotFound { name: name@ },
            LaunchFailure::ResolveExecd => LaunchFailureView::ResolveExecd,
            LaunchFailure::NoParent => LaunchFailureView::NoParent,
            LaunchFailure::Spawn => LaunchFailureView::Spawn,
            LaunchFailure::RecordPid => LaunchFailureView::RecordPid,
            LaunchFailure::TimedOut => LaunchFailureView::TimedOut,
            LaunchFailure::ExitedEarly { status } => LaunchFailureView::ExitedEarly {
                status: status@,
            },
        }
    }
}

/// What a [`LaunchFailure`] tells the user.
pub open spec fn launch_failure_text(failure: LaunchFailure) -> Seq<char> {
    match failure {
        LaunchFailure::Resolve { shown } => "resolving '"@ + shown@ + "'"@,
        LaunchFailure::NotADirectory { shown } => "'"@ + shown@ + "' is not a directory"@,
        LaunchFailure::Setup(e) => setup_error_text(e),
        LaunchFailure::StateDir { shown } => "creating state directory '"@ + shown@ + "'"@,
        LaunchFailure::RuntimeDir { shown } => "creating runtime directory '"@ + shown@ + "'"@,
        LaunchFailure::Metadata { shown } => "writing '"@ + shown@ + "'"@,
        LaunchFailure::Stale(e) => stale_error_text(e),
        LaunchFailure::Claim =>
            "claiming workspace (PID file already exists — concurrent launch?)"@,
        LaunchFailure::NotFound { name } => "'"@ + name@ + "' not found alongside wsb or in PATH"@,
        LaunchFailure::ResolveExecd => "resolving grpc_execd path"@,
        LaunchFailure::NoParent => "grpc_execd binary has no parent directory"@,
        LaunchFailure::Spawn => "spawning sandbox"@,
        LaunchFailure::RecordPid => "updating PID file"@,
        LaunchFailure::TimedOut => "grpc_execd socket did not appear within "@ + decimal(
            SOCKET_TIMEOUT_SECS as nat,
        ) + "s"@,
        LaunchFailure::ExitedEarly { status } => "sandbox exited early with "@ + status@,
    }
}

fn framed(before: &str, shown: &String, after: &str) -> (res: String)
    ensures
        res@ == before@ + shown@ + after@,
{
    let mut res = before.to_owned();
    res.append(shown.as_str());
    res.append(after);
    res
}

impl LaunchFailure {
    /// What went wrong, in words; the system's own account is to follow where
    /// there is one.
    pub fn message(&self) -> (res: String)
        ensures
            res@ == launch_failure_text(*self),
    {
        match self {
            LaunchFailure::Resolve { shown } => framed("resolving '", shown, "'"),
            LaunchFailure::NotADirectory { shown } => framed("'", shown, "' is not a directory"),
            LaunchFailure::Setup(e) => e.message(),
            LaunchFailure::StateDir { shown } => framed("creating state directory '", shown, "'"),
            LaunchFailure::RuntimeDir { shown } => {
                framed("creating runtime directory '", shown, "'")
            },
            LaunchFailure::Metadata { shown } => framed("writing '", shown, "'"),
            LaunchFailure::Stale(e) => e.message(),
            LaunchFailure::Claim => {
                "claiming workspace (PID file already exists — concurrent launch?)".to_owned()
            },
            LaunchFailure::NotFound { name } => not_found_message(name.as_str()),
            LaunchFailure::ResolveExecd => "resolving grpc_execd path".to_owned(),
            LaunchFailure::NoParent => "grpc_execd binary has no parent directory".to_owned(),
            LaunchFailure::Spawn => "spawning sandbox".to_owned(),
            LaunchFailure::RecordPid => "updating PID file".to_owned(),
            LaunchFailure::TimedOut => {
                let mut res = "grpc_execd socket did not appear within ".to_owned();
                push_decimal(&mut res, SOCKET_TIMEOUT_SECS);
                res.append("s");
                res
            },
            LaunchFailure::ExitedEarly { status } => {
                let mut res = "sandbox exited early with ".to_owned();
                res.append(status.as_str());
                res
            },
        }
    }
}

/// What a launch does.
#[derive(Debug)]
pub enum LaunchAction {
    /// Resolve links and `..` in a path.
    Canonicalize(Vec<u8>),
    /// Tell whether a path is a directory.
    IsDir(Vec<u8>),
    /// Make a directory and those above it.
    MakeDir(Vec<u8>),
    /// Write a file.
    Write { path: Vec<u8>, text: String },
    /// Read a file.
    Read(Vec<u8>),
    /// Send a process no signal at all, to see whether it is there.
    Probe(i32),
    /// Remove files; a failure to do so is ignored.
    Remove(Vec<Vec<u8>>),
    /// Create the PID file, which must not be there yet, and write the
    /// launcher's own PID to it; a failure to write is ignored.
    Claim(Vec<u8>),
    /// Answer a question of a search.
    Ask(Query),
    /// Spawn the sandbox, with default signal handlers.
    Spawn(SandboxCommand),
    /// Tell whether the socket is there.
    FindSocket(Vec<u8>),
    /// Tell how much time has passed since the socket was first looked for.
    ReadClock,
    /// Tell whether the sandbox has ended.
    TryWait,
    /// Pause for so many milliseconds.
    Sleep(u64),
    /// Kill the sandbox; a failure to do so is ignored.
    Kill,
    /// Wait for the killed sandbox to end; a failure to do so is ignored.
    Reap,
    /// Print a line on stdout and flush it; a failure to do so is ignored.
    Announce(String),
    /// Wait for the sandbox to end.
    AwaitExit,
    /// Exit with a code.
    Exit(u8),
    /// Report the failure and exit with [`FAILED_CODE`].
    Fail(LaunchFailure),
}

/// What a [`LaunchAction`] is.
#[verifier::ext_equal]
pub enum LaunchActionView {
    Canonicalize(Seq<u8>),
    IsDir(Seq<u8>),
    MakeDir(Seq<u8>),
    Write { path: Seq<u8>, text: Seq<char> },
    Read(Seq<u8>),
    Probe(i32),
    Remove(Seq<Seq<u8>>),
    Claim(Seq<u8>),
    Ask(QueryView),
    Spawn(SandboxCommandView),
    FindSocket(Seq<u8>),
    ReadClock,
    TryWait,
    Sleep(u64),
    Kill,
    Reap,
    Announce(Seq<char>),
    AwaitExit,
    Exit(u8),
    Fail(LaunchFailureView),
}

impl View for LaunchAction {
    type V = LaunchActionView;

    open spec fn view(&self) -> LaunchActionView {
        match self {
            LaunchAction::Canonicalize(path) => LaunchActionView::Canonicalize(path@),
            LaunchAction::IsDir(path) => LaunchActionView::IsDir(path@),
            LaunchAction::MakeDir(path) => LaunchActionView::MakeDir(path@),
            LaunchAction::Write { path, text } => LaunchActionView::Write {
                path: path@,
                text: text@,
            },
            LaunchAction::Read(path) => LaunchActionView::Read(path@),
            LaunchAction::Probe(pid) => LaunchActionView::Probe(*pid),
            LaunchAction::Remove(paths) => LaunchActionView::Remove(path_list(paths@)),
            LaunchAction::Claim(path) => LaunchActionView::Claim(path@),
            LaunchAction::Ask(query) => LaunchActionView::Ask(query@),
            LaunchAction::Spawn(command) => LaunchActionView::Spawn(command@),
            LaunchAction::FindSocket(path) => LaunchActionView::FindSocket(path@),
            LaunchAction::ReadClock => LaunchActionView::ReadClock,
            LaunchAction::TryWait => LaunchActionView::TryWait,
            LaunchAction::Sleep(millis) => LaunchActionView::Sleep(*millis),
            LaunchAction::Kill => LaunchActionView::Kill,
            LaunchAction::Reap => LaunchActionView::Reap,
            LaunchAction::Announce(line) => LaunchActionView::Announce(line@),
            LaunchAction::AwaitExit => LaunchActionView::AwaitExit,
            LaunchAction::Exit(code) => LaunchActionView::Exit(*code),
            LaunchAction::Fail(failure) => LaunchActionView::Fail(failure@),
        }
    }
}

/// The code that the launcher exits with after an action, if it ends with it.
pub open spec fn launch_code(action: LaunchActionView) -> Option<u8> {
    match action {
        LaunchActionView::Exit(code) => Some(code),
        LaunchActionView::Fail(_) => Some(FAILED_CODE),
        _ => None,
    }
}

impl LaunchAction {
    /// The code that the launcher exits with after this action, if it ends with
    /// it.
    pub fn exit_code(&self) -> (res: Option<u8>)
        ensures
            res == launch_code(self@),
    {
        match self {
            LaunchAction::Exit(code) => Some(*code),
            LaunchAction::Fail(_) => Some(FAILED_CODE),
            _ => None,
        }
    }
}

pub open spec fn launch_views(actions: Seq<LaunchAction>) -> Seq<LaunchActionView> {
    Seq::new(actions.len(), |i: int| actions[i]@)
}

/// What came of an action.
#[derive(Debug)]
pub enum LaunchEvent {
    /// A path was resolved, or could not be.
    Canonical(Option<Vec<u8>>),
    /// The path is a directory.
    Yes,
    /// The path is not a directory.
    No,
    /// What was to be made, written or claimed was.
    Done,
    /// What was to be made, written, claimed or spawned could not be.
    Failed,
    /// The contents of a file, if it could be read.
    Contents(Option<String>),
    /// What came of a probe.
    Probed(Probe),
    /// The answer to a search's question.
    Answered(Answer),
    /// The sandbox was spawned.
    Spawned(u32),
    /// What came of a look while the socket is waited for.
    Looked(SocketLook),
    /// The sandbox was waited for: the code it exited with, if it exited at
    /// all, or nothing where the wait failed.
    Waited(Option<Option<i32>>),
}

/// What a [`LaunchEvent`] is.
#[verifier::ext_equal]
pub enum LaunchEventView {
    Canonical(Option<Seq<u8>>),
    Yes,
    No,
    Done,
    Failed,
    Contents(Option<Seq<char>>),
    Probed(Probe),
    Answered(AnswerView),
    Spawned(u32),
    Looked(SocketLookView),
    Waited(Option<Option<i32>>),
}

impl View for LaunchEvent {
    type V = LaunchEventView;

    open spec fn view(&self) -> LaunchEventView {
        match self {
            LaunchEvent::Canonical(path) => LaunchEventView::Canonical(opt_path(*path)),
            LaunchEvent::Yes => LaunchEventView::Yes,
            LaunchEvent::No => LaunchEventView::No,
            LaunchEvent::Done => LaunchEventView::Done,
            LaunchEvent::Failed => LaunchEventView::Failed,
            LaunchEvent::Contents(text) => LaunchEventView::Contents(opt_text(*text)),
            LaunchEvent::Probed(probe) => LaunchEventView::Probed(*probe),
            LaunchEvent::Answered(answer) => LaunchEventView::Answered(answer@),
            LaunchEvent::Spawned(pid) => LaunchEventView::Spawned(*pid),
            LaunchEvent::Looked(look) => LaunchEventView::Looked(look@),
            LaunchEvent::Waited(waited) => LaunchEventView::Waited(*waited),
        }
    }
}

/// How far a launch has come.
#[derive(Debug)]
pub enum LaunchPhase {
    /// The workspace is being resolved.
    Resolving,
    /// The workspace is being looked at.
    Inspecting { workspace: Vec<u8> },
    /// The state directory is being made.
    MakingState { layout: Layout },
    /// The runtime directory is being made.
    MakingRuntime { layout: Layout },
    /// The metadata is being written.
    Describing { layout: Layout },
    /// The PID file is being read.
    ReadingPid { layout: Layout },
    /// The process that the PID file names is being probed.
    Probing { layout: Layout, contents: Option<String> },
    /// The PID file is being claimed.
    Claiming { layout: Layout },
    /// The sandbox is being looked for.
    FindingSandbox { layout: Layout, search: BinarySearch },
    /// grpc_execd is being looked for.
    FindingExecd { layout: Layout, sandbox: Vec<u8>, search: BinarySearch },
    /// The path of grpc_execd is being resolved.
    ResolvingExecd { layout: Layout, sandbox: Vec<u8> },
    /// The sandbox is being spawned.
    Spawning { layout: Layout },
    /// The sandbox's PID is being recorded.
    Recording { layout: Layout },
    /// The socket is waited for.
    AwaitingSocket { layout: Layout, stage: SocketStage },
    /// The sandbox is waited for.
    AwaitingExit { layout: Layout },
    /// The launch is over.
    Over,
}

/// A search for a program: what it goes by, and how far it has come.
#[verifier::ext_equal]
pub struct BinarySearchView {
    pub lookup: LookupView,
    pub phase: SearchView,
}

pub open spec fn search_view(search: BinarySearch) -> BinarySearchView {
    BinarySearchView { lookup: search.lookup@, phase: search.phase@ }
}

/// What a [`LaunchPhase`] is.
#[verifier::ext_equal]
pub enum LaunchPhaseView {
    Resolving,
    Inspecting { workspace: Seq<u8> },
    MakingState { layout: LayoutView },
    MakingRuntime { layout: LayoutView },
    Describing { layout: LayoutView },
    ReadingPid { layout: LayoutView },
    Probing { layout: LayoutView, contents: Option<Seq<char>> },
    Claiming { layout: LayoutView },
    FindingSandbox { layout: LayoutView, search: BinarySearchView },
    FindingExecd { layout: LayoutView, sandbox: Seq<u8>, search: BinarySearchView },
    ResolvingExecd { layout: LayoutView, sandbox: Seq<u8> },
    Spawning { layout: LayoutView },
    Recording { layout: LayoutView },
    AwaitingSocket { layout: LayoutView, stage: SocketStage },
    AwaitingExit { layout: LayoutView },
    Over,
}

impl View for LaunchPhase {
    type V = LaunchPhaseView;

    open spec fn view(&self) -> LaunchPhaseView {
        match self {
            LaunchPhase::Resolving => LaunchPhaseView::Resolving,
            LaunchPhase::Inspecting { workspace } => LaunchPhaseView::Inspecting {
                workspace: workspace@,
            },
            LaunchPhase::MakingState { layout } => LaunchPhaseView::MakingState { layout: layout@ },
            LaunchPhase::MakingRuntime { layout } => LaunchPhaseView::MakingRuntime {
                layout: layout@,
            },
            LaunchPhase::Describing { layout } => LaunchPhaseView::Describing { layout: layout@ },
            LaunchPhase::ReadingPid { layout } => LaunchPhaseView::ReadingPid { layout: layout@ },
            LaunchPhase::Probing { layout, contents } => LaunchPhaseView::Probing {
                layout: layout@,
                contents: opt_text(*contents),
            },
            LaunchPhase::Claiming { layout } => LaunchPhaseView::Claiming { layout: layout@ },
            LaunchPhase::FindingSandbox { layout, search } => LaunchPhaseView::FindingSandbox {
                layout: layout@,
                search: search_view(*search),
            },
            LaunchPhase::FindingExecd { layout, sandbox, search } => LaunchPhaseView::FindingExecd {
                layout: layout@,
                sandbox: sandbox@,
                search: search_view(*search),
            },
            LaunchPhase::ResolvingExecd { layout, sandbox } => LaunchPhaseView::ResolvingExecd {
                layout: layout@,
                sandbox: sandbox@,
            },
            LaunchPhase::Spawning { layout } => LaunchPhaseView::Spawning { layout: layout@ },
            LaunchPhase::Recording { layout } => LaunchPhaseView::Recording { layout: layout@ },
            LaunchPhase::AwaitingSocket { layout, stage } => LaunchPhaseView::AwaitingSocket {
                layout: layout@,
                stage: *stage,
            },
            LaunchPhase::AwaitingExit { layout } => LaunchPhaseView::AwaitingExit {
                layout: layout@,
            },
            LaunchPhase::Over => LaunchPhaseView::Over,
        }
    }
}

/// How far a launch has come, and what it does to get there.
pub type LaunchMove = (LaunchPhaseView, Seq<LaunchActionView>);

/// The runtime artifacts of a session: socket and PID file.
pub open spec fn artifacts(layout: LayoutView) -> LaunchActionView {
    LaunchActionView::Remove(seq![layout.socket_path, layout.pid_path])
}

/// A launch that fails before the workspace has been claimed.
pub open spec fn failed(failure: LaunchFailureView) -> LaunchMove {
    (LaunchPhaseView::Over, seq![LaunchActionView::Fail(failure)])
}

/// A launch that fails once the workspace has been claimed: it cleans up first.
pub open spec fn failed_claimed(layout: LayoutView, failure: LaunchFailureView) -> LaunchMove {
    (LaunchPhaseView::Over, seq![artifacts(layout), LaunchActionView::Fail(failure)])
}

/// A launch that fails while the sandbox runs: it ends the sandbox first.
pub open spec fn failed_running(layout: LayoutView, failure: LaunchFailureView) -> LaunchMove {
    (
        LaunchPhaseView::Over,
        seq![
            LaunchActionView::Kill,
            LaunchActionView::Reap,
            artifacts(layout),
            LaunchActionView::Fail(failure),
        ],
    )
}

/// A launch whose workspace turned out to be a directory.
pub open spec fn laying_out(setting: Setting, workspace: Seq<u8>) -> LaunchMove {
    match setup_of(workspace, setting.xdg_data_home, setting.home) {
        Ok(layout) => (
            LaunchPhaseView::MakingState { layout },
            seq![LaunchActionView::MakeDir(layout.home_dir)],
        ),
        Err(e) => failed(LaunchFailureView::Setup(e)),
    }
}

/// A launch that knows what a PID file holds and what became of the process it
/// names: a live session is left alone, what a dead one left is removed.
pub open spec fn claiming(
    layout: LayoutView,
    contents: Option<Seq<char>>,
    probe: Option<Probe>,
) -> LaunchMove {
    match (pid_in(contents), probe) {
        (Some(pid), Some(probe)) if alive(pid, probe) is Some => failed(
            LaunchFailureView::Stale(alive(pid, probe)->Some_0),
        ),
        _ => (
            LaunchPhaseView::Claiming { layout },
            seq![
                LaunchActionView::Remove(stale_files(layout.runtime_dir, contents is Some)),
                LaunchActionView::Claim(layout.pid_path),
            ],
        ),
    }
}

/// A launch that has read the PID file.
pub open spec fn checking(layout: LayoutView, contents: Option<Seq<char>>) -> LaunchMove {
    match pid_in(contents) {
        Some(pid) => (
            LaunchPhaseView::Probing { layout, contents },
            seq![LaunchActionView::Probe(pid)],
        ),
        None => claiming(layout, contents, None),
    }
}

/// The search for a program of a given name.
pub open spec fn searching(setting: Setting, name: Seq<char>) -> BinarySearchView {
    let lookup = lookup_of(bytes_of(name), setting.exe, setting.path);
    BinarySearchView { lookup, phase: search_start(lookup) }
}

/// A launch that looks for the sandbox.
pub open spec fn finding_sandbox(
    setting: Setting,
    layout: LayoutView,
    search: BinarySearchView,
) -> LaunchMove {
    match question(search.phase) {
        QueryView::Found(path) => with_sandbox(setting, layout, path),
        QueryView::NotFound => failed_claimed(
            layout,
            LaunchFailureView::NotFound { name: "sandbox"@ },
        ),
        query => (
            LaunchPhaseView::FindingSandbox { layout, search },
            seq![LaunchActionView::Ask(query)],
        ),
    }
}

/// A launch that looks for grpc_execd.
pub open spec fn finding_execd(
    layout: LayoutView,
    sandbox: Seq<u8>,
    search: BinarySearchView,
) -> LaunchMove {
    match question(search.phase) {
        QueryView::Found(path) => (
            LaunchPhaseView::ResolvingExecd { layout, sandbox },
            seq![LaunchActionView::Canonicalize(path)],
        ),
        QueryView::NotFound => failed_claimed(
            layout,
            LaunchFailureView::NotFound { name: "grpc_execd"@ },
        ),
        query => (
            LaunchPhaseView::FindingExecd { layout, sandbox, search },
            seq![LaunchActionView::Ask(query)],
        ),
    }
}

/// A launch that has claimed the workspace.
pub open spec fn claimed(setting: Setting, layout: LayoutView) -> LaunchMove {
    match setting.sandbox_bin {
        Some(path) => with_sandbox(setting, layout, resolved(path, setting.build_dir)),
        None => finding_sandbox(setting, layout, searching(setting, "sandbox"@)),
    }
}

/// A launch that has the path of the sandbox.
pub open spec fn with_sandbox(
    setting: Setting,
    layout: LayoutView,
    sandbox: Seq<u8>,
) -> LaunchMove {
    match setting.grpc_execd_bin {
        Some(path) => (
            LaunchPhaseView::ResolvingExecd { layout, sandbox },
            seq![LaunchActionView::Canonicalize(resolved(path, setting.build_dir))],
        ),
        None => finding_execd(layout, sandbox, searching(setting, "grpc_execd"@)),
    }
}

/// A launch that has the path of grpc_execd.
pub open spec fn with_execd(layout: LayoutView, sandbox: Seq<u8>, execd: Seq<u8>) -> LaunchMove {
    match parent_of(execd) {
        Some(dir) => (
            LaunchPhaseView::Spawning { layout },
            seq![
                LaunchActionView::Spawn(
                    SandboxCommandView {
                        program: sandbox,
                        args: sandbox_args(layout, execd, dir),
                    },
                ),
            ],
        ),
        None => failed_claimed(layout, LaunchFailureView::NoParent),
    }
}

/// What a launch does to look at something while the socket is waited for.
pub open spec fn look_action(layout: LayoutView, stage: SocketStage) -> LaunchActionView {
    match stage {
        SocketStage::Socket => LaunchActionView::FindSocket(layout.socket_path),
        SocketStage::Clock => LaunchActionView::ReadClock,
        SocketStage::Child => LaunchActionView::TryWait,
    }
}

/// A launch that waits for the socket.
pub open spec fn awaiting(layout: LayoutView, step: SocketStepView) -> LaunchMove {
    match step {
        SocketStepView::Ready => (
            LaunchPhaseView::AwaitingExit { layout },
            seq![
                LaunchActionView::Announce("ready: "@ + lossy_utf8(layout.socket_path)),
                LaunchActionView::AwaitExit,
            ],
        ),
        SocketStepView::Look(stage) => (
            LaunchPhaseView::AwaitingSocket { layout, stage },
            seq![look_action(layout, stage)],
        ),
        SocketStepView::Pause => (
            LaunchPhaseView::AwaitingSocket { layout, stage: SocketStage::Socket },
            seq![
                LaunchActionView::Sleep(SOCKET_POLL_MILLIS),
                look_action(layout, SocketStage::Socket),
            ],
        ),
        SocketStepView::TimedOut => failed_running(layout, LaunchFailureView::TimedOut),
        SocketStepView::ExitedEarly(status) => failed_claimed(
            layout,
            LaunchFailureView::ExitedEarly { status },
        ),
    }
}

/// A phase whose workspace can be described in TOML.
pub open spec fn phase_fits(phase: LaunchPhaseView) -> bool {
    match phase {
        LaunchPhaseView::Inspecting { workspace } => quotes_fit(workspace),
        LaunchPhaseView::MakingState { layout } => valid_utf8(layout.workspace) && quotes_fit(
            layout.workspace,
        ),
        LaunchPhaseView::MakingRuntime { layout } => valid_utf8(layout.workspace) && quotes_fit(
            layout.workspace,
        ),
        _ => true,
    }
}

/// An event that leads to no workspace that could not be described in TOML.
pub open spec fn event_fits(event: LaunchEventView) -> bool {
    event matches LaunchEventView::Canonical(Some(path)) ==> quotes_fit(path)
}

/// What a launch does first.
pub open spec fn launch_start(setting: Setting) -> LaunchMove {
    (
        LaunchPhaseView::Resolving,
        seq![LaunchActionView::Canonicalize(resolved(setting.workspace, setting.build_dir))],
    )
}

/// What a launch does on an event, and how far it has come then. An event that
/// does not fit changes nothing.
pub open spec fn launch_step(
    setting: Setting,
    phase: LaunchPhaseView,
    event: LaunchEventView,
) -> LaunchMove {
    match (phase, event) {
        (LaunchPhaseView::Resolving, LaunchEventView::Canonical(Some(workspace))) => (
            LaunchPhaseView::Inspecting { workspace },
            seq![LaunchActionView::IsDir(workspace)],
        ),
        (LaunchPhaseView::Resolving, LaunchEventView::Canonical(None)) => failed(
            LaunchFailureView::Resolve { shown: lossy_utf8(setting.workspace) },
        ),
        (LaunchPhaseView::Inspecting { workspace }, LaunchEventView::Yes) => laying_out(
            setting,
            workspace,
        ),
        (LaunchPhaseView::Inspecting { workspace }, LaunchEventView::No) => failed(
            LaunchFailureView::NotADirectory { shown: lossy_utf8(workspace) },
        ),
        (LaunchPhaseView::MakingState { layout }, LaunchEventView::Done) => (
            LaunchPhaseView::MakingRuntime { layout },
            seq![LaunchActionView::MakeDir(layout.runtime_dir)],
        ),
        (LaunchPhaseView::MakingState { layout }, LaunchEventView::Failed) => failed(
            LaunchFailureView::StateDir { shown: lossy_utf8(layout.home_dir) },
        ),
        (LaunchPhaseView::MakingRuntime { layout }, LaunchEventView::Done) => (
            LaunchPhaseView::Describing { layout },
            seq![
                LaunchActionView::Write {
                    path: metadata_path_of(layout),
                    text: toml_entry("path"@, lossy_utf8(layout.workspace)),
                },
            ],
        ),
        (LaunchPhaseView::MakingRuntime { layout }, LaunchEventView::Failed) => failed(
            LaunchFailureView::RuntimeDir { shown: lossy_utf8(layout.runtime_dir) },
        ),
        (LaunchPhaseView::Describing { layout }, LaunchEventView::Done) => (
            LaunchPhaseView::ReadingPid { layout },
            seq![LaunchActionView::Read(layout.pid_path)],
        ),
        (LaunchPhaseView::Describing { layout }, LaunchEventView::Failed) => failed(
            LaunchFailureView::Metadata { shown: lossy_utf8(metadata_path_of(layout)) },
        ),
        (LaunchPhaseView::ReadingPid { layout }, LaunchEventView::Contents(contents)) => checking(
            layout,
            contents,
        ),
        (LaunchPhaseView::Probing { layout, contents }, LaunchEventView::Probed(probe)) => claiming(
            layout,
            contents,
            Some(probe),
        ),
        (LaunchPhaseView::Claiming { layout }, LaunchEventView::Done) => claimed(setting, layout),
        (LaunchPhaseView::Claiming { .. }, LaunchEventView::Failed) => failed(
            LaunchFailureView::Claim,
        ),
        (
            LaunchPhaseView::FindingSandbox { layout, search },
            LaunchEventView::Answered(answer),
        ) => finding_sandbox(
            setting,
            layout,
            BinarySearchView { phase: search_step(search.lookup, search.phase, answer), ..search },
        ),
        (
            LaunchPhaseView::FindingExecd { layout, sandbox, search },
            LaunchEventView::Answered(answer),
        ) => finding_execd(
            layout,
            sandbox,
            BinarySearchView { phase: search_step(search.lookup, search.phase, answer), ..search },
        ),
        (
            LaunchPhaseView::ResolvingExecd { layout, sandbox },
            LaunchEventView::Canonical(Some(execd)),
        ) => with_execd(layout, sandbox, execd),
        (
            LaunchPhaseView::ResolvingExecd { layout, .. },
            LaunchEventView::Canonical(None),
        ) => failed_claimed(layout, LaunchFailureView::ResolveExecd),
        (LaunchPhaseView::Spawning { layout }, LaunchEventView::Spawned(pid)) => (
            LaunchPhaseView::Recording { layout },
            seq![LaunchActionView::Write { path: layout.pid_path, text: decimal(pid as nat) }],
        ),
        (LaunchPhaseView::Spawning { layout }, LaunchEventView::Failed) => failed_claimed(
            layout,
            LaunchFailureView::Spawn,
        ),
        (LaunchPhaseView::Recording { layout }, LaunchEventView::Done) => awaiting(
            layout,
            SocketStepView::Look(SocketStage::Socket),
        ),
        (LaunchPhaseView::Recording { layout }, LaunchEventView::Failed) => failed_running(
            layout,
            LaunchFailureView::RecordPid,
        ),
        (
            LaunchPhaseView::AwaitingSocket { layout, stage },
            LaunchEventView::Looked(look),
        ) => awaiting(layout, socket_step(stage, look)),
        (LaunchPhaseView::AwaitingExit { layout }, LaunchEventView::Waited(waited)) => (
            LaunchPhaseView::Over,
            seq![artifacts(layout), LaunchActionView::Exit(child_code(waited) as u8)],
        ),
        _ => (phase, seq![]),
    }
}

fn copied(path: &Vec<u8>) -> (res: Vec<u8>)
    ensures
        res@ == path@,
{
    path_copy(path.as_slice())
}

fn one(action: LaunchAction) -> (res: Vec<LaunchAction>)
    ensures
        launch_views(res@) == seq![action@],
{
    let mut actions: Vec<LaunchAction> = Vec::new();
    actions.push(action);
    assert(launch_views(actions@) =~= seq![action@]);
    actions
}

fn two(first: LaunchAction, second: LaunchAction) -> (res: Vec<LaunchAction>)
    ensures
        launch_views(res@) == seq![first@, second@],
{
    let mut actions: Vec<LaunchAction> = Vec::new();
    actions.push(first);
    actions.push(second);
    assert(launch_views(actions@) =~= seq![first@, second@]);
    actions
}

fn nothing() -> (res: Vec<LaunchAction>)
    ensures
        launch_views(res@) == Seq::<LaunchActionView>::empty(),
{
    let actions: Vec<LaunchAction> = Vec::new();
    assert(launch_views(actions@) =~= seq![]);
    actions
}

fn fail(failure: LaunchFailure) -> (res: (LaunchPhase, Vec<LaunchAction>))
    ensures
        (res.0@, launch_views(res.1@)) == failed(failure@),
{
    (LaunchPhase::Over, one(LaunchAction::Fail(failure)))
}

fn remove_artifacts(layout: &Layout) -> (res: LaunchAction)
    ensures
        res@ == artifacts(layout@),
{
    LaunchAction::Remove(cleanup(layout))
}

fn fail_claimed(layout: &Layout, failure: LaunchFailure) -> (res: (LaunchPhase, Vec<LaunchAction>))
    ensures
        (res.0@, launch_views(res.1@)) == failed_claimed(layout@, failure@),
{
    (LaunchPhase::Over, two(remove_artifacts(layout), LaunchAction::Fail(failure)))
}

fn fail_running(layout: &Layout, failure: LaunchFailure) -> (res: (LaunchPhase, Vec<LaunchAction>))
    ensures
        (res.0@, launch_views(res.1@)) == failed_running(layout@, failure@),
{
    let mut actions: Vec<LaunchAction> = Vec::new();
    actions.push(LaunchAction::Kill);
    actions.push(LaunchAction::Reap);
    actions.push(remove_artifacts(layout));
    actions.push(LaunchAction::Fail(failure));
    assert(launch_views(actions@) =~= failed_running(layout@, failure@).1);
    (LaunchPhase::Over, actions)
}

fn claim(layout: Layout, contents: &Option<String>, probe: &Option<Probe>) -> (res: (
    LaunchPhase,
    Vec<LaunchAction>,
))
    requires
        probe is Some <==> pid_in(opt_text(*contents)) is Some,
    ensures
        (res.0@, launch_views(res.1@)) == claiming(layout@, opt_text(*contents), *probe),
{
    match check_stale(layout.runtime_dir.as_slice(), contents, probe) {
        Ok(files) => {
            let pid_path = copied(&layout.pid_path);
            (
                LaunchPhase::Claiming { layout },
                two(LaunchAction::Remove(files), LaunchAction::Claim(pid_path)),
            )
        },
        Err(e) => fail(LaunchFailure::Stale(e)),
    }
}

fn check_running(layout: Layout, contents: Option<String>) -> (res: (
    LaunchPhase,
    Vec<LaunchAction>,
))
    ensures
        (res.0@, launch_views(res.1@)) == checking(layout@, opt_text(contents)),
{
    match recorded_pid(&contents) {
        Some(pid) => (
            LaunchPhase::Probing { layout, contents },
            one(LaunchAction::Probe(pid)),
        ),
        None => claim(layout, &contents, &None),
    }
}

fn look(layout: Layout, step: SocketStep) -> (res: (LaunchPhase, Vec<LaunchAction>))
    ensures
        (res.0@, launch_views(res.1@)) == awaiting(layout@, step@),
{
    match step {
        SocketStep::Ready => {
            // Ready: the socket path is printed for callers to consume.
            let mut line = "ready: ".to_owned();
            line.append(lossy_text(layout.socket_path.as_slice()).as_str());
            (
                LaunchPhase::AwaitingExit { layout },
                two(LaunchAction::Announce(line), LaunchAction::AwaitExit),
            )
        },
        SocketStep::Look(stage) => {
            let action = match stage {
                SocketStage::Socket => LaunchAction::FindSocket(copied(&layout.socket_path)),
                SocketStage::Clock => LaunchAction::ReadClock,
                SocketStage::Child => LaunchAction::TryWait,
            };
            (LaunchPhase::AwaitingSocket { layout, stage }, one(action))
        },
        SocketStep::Pause => {
            let action = LaunchAction::FindSocket(copied(&layout.socket_path));
            (
                LaunchPhase::AwaitingSocket { layout, stage: SocketStage::Socket },
                two(LaunchAction::Sleep(SOCKET_POLL_MILLIS), action),
            )
        },
        SocketStep::TimedOut => fail_running(&layout, LaunchFailure::TimedOut),
        SocketStep::ExitedEarly(status) => {
            fail_claimed(&layout, LaunchFailure::ExitedEarly { status })
        },
    }
}

fn spawn_sandbox(layout: Layout, sandbox: Vec<u8>, execd: Vec<u8>) -> (res: (
    LaunchPhase,
    Vec<LaunchAction>,
))
    ensures
        (res.0@, launch_views(res.1@)) == with_execd(layout@, sandbox@, execd@),
{
    match sandbox_command(&layout, sandbox, &execd) {
        Some(command) => (LaunchPhase::Spawning { layout }, one(LaunchAction::Spawn(command))),
        None => fail_claimed(&layout, LaunchFailure::NoParent),
    }
}

fn search_execd(layout: Layout, sandbox: Vec<u8>, search: BinarySearch) -> (res: (
    LaunchPhase,
    Vec<LaunchAction>,
))
    ensures
        (res.0@, launch_views(res.1@)) == finding_execd(layout@, sandbox@, search_view(search)),
{
    match search.query() {
        Query::Found(path) => (
            LaunchPhase::ResolvingExecd { layout, sandbox },
            one(LaunchAction::Canonicalize(path)),
        ),
        Query::NotFound => {
            fail_claimed(&layout, LaunchFailure::NotFound { name: "grpc_execd".to_owned() })
        },
        query => (
            LaunchPhase::FindingExecd { layout, sandbox, search },
            one(LaunchAction::Ask(query)),
        ),
    }
}

/// A launch of a sandbox for a workspace.
#[derive(Debug)]
pub struct Launch {
    pub args: StartArgs,
    pub env: Environment,
    pub phase: LaunchPhase,
}

impl StartArgs {
    /// Begins a launch, and says what to do first.
    pub fn run(self, env: Environment) -> (res: (Launch, Vec<LaunchAction>))
        ensures
            res.0.args == self,
            res.0.env == env,
            (res.0.phase@, launch_views(res.1@)) == launch_start(setting_of(self, env)),
            phase_fits(res.0.phase@),
    {
        let path = resolve_path(self.workspace.as_slice(), &env.build_dir);
        (
            Launch { args: self, env, phase: LaunchPhase::Resolving },
            one(LaunchAction::Canonicalize(path)),
        )
    }
}

impl Launch {
    /// What the launch goes by.
    pub open spec fn setting(&self) -> Setting {
        setting_of(self.args, self.env)
    }

    fn find(&self, name: &str) -> (res: BinarySearch)
        ensures
            search_view(res) == searching(self.setting(), name@),
    {
        find_binary(name.as_bytes(), &self.env.exe, &self.env.path)
    }

    fn resolve_execd(&self, layout: Layout, sandbox: Vec<u8>) -> (res: (
        LaunchPhase,
        Vec<LaunchAction>,
    ))
        ensures
            (res.0@, launch_views(res.1@)) == with_sandbox(self.setting(), layout@, sandbox@),
    {
        match &self.args.grpc_execd_bin {
            Some(path) => {
                let path = resolve_binary_path(path.as_slice(), &self.env.build_dir);
                (
                    LaunchPhase::ResolvingExecd { layout, sandbox },
                    one(LaunchAction::Canonicalize(path)),
                )
            },
            None => search_execd(layout, sandbox, self.find("grpc_execd")),
        }
    }

    fn search_sandbox(&self, layout: Layout, search: BinarySearch) -> (res: (
        LaunchPhase,
        Vec<LaunchAction>,
    ))
        ensures
            (res.0@, launch_views(res.1@)) == finding_sandbox(
                self.setting(),
                layout@,
                search_view(search),
            ),
    {
        match search.query() {
            Query::Found(path) => self.resolve_execd(layout, path),
            Query::NotFound => {
                fail_claimed(&layout, LaunchFailure::NotFound { name: "sandbox".to_owned() })
            },
            query => (
                LaunchPhase::FindingSandbox { layout, search },
                one(LaunchAction::Ask(query)),
            ),
        }
    }

    /// Inner startup logic after the PID file has been claimed.
    fn start_sandbox(&self, layout: Layout) -> (res: (LaunchPhase, Vec<LaunchAction>))
        ensures
            (res.0@, launch_views(res.1@)) == claimed(self.setting(), layout@),
    {
        match &self.args.sandbox_bin {
            Some(path) => {
                let path = resolve_binary_path(path.as_slice(), &self.env.build_dir);
                self.resolve_execd(layout, path)
            },
            None => self.search_sandbox(layout, self.find("sandbox")),
        }
    }

    fn lay_out(&self, workspace: Vec<u8>) -> (res: (LaunchPhase, Vec<LaunchAction>))
        ensures
            (res.0@, launch_views(res.1@)) == laying_out(self.setting(), workspace@),
    {
        match setup_layout(workspace.as_slice(), &self.env.xdg_data_home, &self.env.home) {
            Ok(layout) => {
                let dir = copied(&layout.home_dir);
                (LaunchPhase::MakingState { layout }, one(LaunchAction::MakeDir(dir)))
            },
            Err(e) => fail(LaunchFailure::Setup(e)),
        }
    }

    /// Takes what came of the last action, and says what to do next, in order.
    #[verifier::rlimit(40)]
    pub fn step(&mut self, event: LaunchEvent) -> (res: Vec<LaunchAction>)
        requires
            phase_fits(old(self).phase@),
            event_fits(event@),
        ensures
            phase_fits(final(self).phase@),
            final(self).args == old(self).args,
            final(self).env == old(self).env,
            (final(self).phase@, launch_views(res@)) == launch_step(
                old(self).setting(),
                old(self).phase@,
                event@,
            ),
    {
        let mut phase = LaunchPhase::Over;
        std::mem::swap(&mut self.phase, &mut phase);
        let (phase, actions) = match (phase, event) {
            (LaunchPhase::Resolving, LaunchEvent::Canonical(Some(workspace))) => {
                let path = copied(&workspace);
                (LaunchPhase::Inspecting { workspace }, one(LaunchAction::IsDir(path)))
            },
            (LaunchPhase::Resolving, LaunchEvent::Canonical(None)) => {
                let shown = lossy_text(self.args.workspace.as_slice());
                fail(LaunchFailure::Resolve { shown })
            },
            (LaunchPhase::Inspecting { workspace }, LaunchEvent::Yes) => self.lay_out(workspace),
            (LaunchPhase::Inspecting { workspace }, LaunchEvent::No) => {
                let shown = lossy_text(workspace.as_slice());
                fail(LaunchFailure::NotADirectory { shown })
            },
            (LaunchPhase::MakingState { layout }, LaunchEvent::Done) => {
                let dir = copied(&layout.runtime_dir);
                (LaunchPhase::MakingRuntime { layout }, one(LaunchAction::MakeDir(dir)))
            },
            (LaunchPhase::MakingState { layout }, LaunchEvent::Failed) => {
                let shown = lossy_text(layout.home_dir.as_slice());
                fail(LaunchFailure::StateDir { shown })
            },
            (LaunchPhase::MakingRuntime { layout }, LaunchEvent::Done) => {
                // Workspace metadata, for ID recovery.
                let path = layout.metadata_path();
                let text = layout.metadata().to_toml();
                (LaunchPhase::Describing { layout }, one(LaunchAction::Write { path, text }))
            },
            (LaunchPhase::MakingRuntime { layout }, LaunchEvent::Failed) => {
                let shown = lossy_text(layout.runtime_dir.as_slice());
                fail(LaunchFailure::RuntimeDir { shown })
            },
            (LaunchPhase::Describing { layout }, LaunchEvent::Done) => {
                let path = copied(&layout.pid_path);
                (LaunchPhase::ReadingPid { layout }, one(LaunchAction::Read(path)))
            },
            (LaunchPhase::Describing { layout }, LaunchEvent::Failed) => {
                let shown = lossy_text(layout.metadata_path().as_slice());
                fail(LaunchFailure::Metadata { shown })
            },
            (LaunchPhase::ReadingPid { layout }, LaunchEvent::Contents(contents)) => {
                check_running(layout, contents)
            },
            (LaunchPhase::Probing { layout, contents }, LaunchEvent::Probed(probe)) => {
                let probe = match recorded_pid(&contents) {
                    Some(_) => Some(probe),
                    None => None,
                };
                claim(layout, &contents, &probe)
            },
            (LaunchPhase::Claiming { layout }, LaunchEvent::Done) => self.start_sandbox(layout),
            (LaunchPhase::Claiming { .. }, LaunchEvent::Failed) => fail(LaunchFailure::Claim),
            (
                LaunchPhase::FindingSandbox { layout, mut search },
                LaunchEvent::Answered(answer),
            ) => {
                search.answer(answer);
                self.search_sandbox(layout, search)
            },
            (
                LaunchPhase::FindingExecd { layout, sandbox, mut search },
                LaunchEvent::Answered(answer),
            ) => {
                search.answer(answer);
                search_execd(layout, sandbox, search)
            },
            (
                LaunchPhase::ResolvingExecd { layout, sandbox },
                LaunchEvent::Canonical(Some(execd)),
            ) => spawn_sandbox(layout, sandbox, execd),
            (LaunchPhase::ResolvingExecd { layout, .. }, LaunchEvent::Canonical(None)) => {
                fail_claimed(&layout, LaunchFailure::ResolveExecd)
            },
            (LaunchPhase::Spawning { layout }, LaunchEvent::Spawned(pid)) => {
                // The launcher's PID served as a lock; stale detection is to
                // track the sandbox.
                let path = copied(&layout.pid_path);
                let mut text = String::new();
                push_decimal(&mut text, pid as u64);
                (LaunchPhase::Recording { layout }, one(LaunchAction::Write { path, text }))
            },
            (LaunchPhase::Spawning { layout }, LaunchEvent::Failed) => {
                fail_claimed(&layout, LaunchFailure::Spawn)
            },
            (LaunchPhase::Recording { layout }, LaunchEvent::Done) => {
                look(layout, SocketStep::Look(SocketStage::Socket))
            },
            (LaunchPhase::Recording { layout }, LaunchEvent::Failed) => {
                fail_running(&layout, LaunchFailure::RecordPid)
            },
            (LaunchPhase::AwaitingSocket { layout, stage }, LaunchEvent::Looked(seen)) => {
                look(layout, wait_for_socket(stage, seen))
            },
            (LaunchPhase::AwaitingExit { layout }, LaunchEvent::Waited(waited)) => (
                LaunchPhase::Over,
                two(remove_artifacts(&layout), LaunchAction::Exit(wait_for_child(waited))),
            ),
            (phase, _) => (phase, nothing()),
        };
        self.phase = phase;
        actions
    }
}

// ---------------------------------------------------------------------------
// Laws
// ---------------------------------------------------------------------------

/// The layout of a session whose workspace the launch has claimed.
pub open spec fn claimed_layout(phase: LaunchPhaseView) -> Option<LayoutView> {
    match phase {
        LaunchPhaseView::FindingSandbox { layout, .. } => Some(layout),
        LaunchPhaseView::FindingExecd { layout, .. } => Some(layout),
        LaunchPhaseView::ResolvingExecd { layout, .. } => Some(layout),
        LaunchPhaseView::Spawning { layout } => Some(layout),
        LaunchPhaseView::Recording { layout } => Some(layout),
        LaunchPhaseView::AwaitingSocket { layout, .. } => Some(layout),
        LaunchPhaseView::AwaitingExit { layout } => Some(layout),
        _ => None,
    }
}

/// An action that ends the launcher.
pub open spec fn ends(action: LaunchActionView) -> bool {
    launch_code(action) is Some
}

/// A move of a launch that has claimed its workspace: it ends with the removal
/// of the socket and the PID file and then the launcher's end, or it removes
/// nothing and the workspace stays claimed.
pub open spec fn keeps_claim(layout: LayoutView, step: LaunchMove) -> bool {
    let (after, actions) = step;
    let n = actions.len() as int;
    if after is Over {
        &&& n >= 2 && ends(actions[n - 1]) && actions[n - 2] == artifacts(layout)
        &&& forall|i: int| 0 <= i < n - 1 ==> !ends(#[trigger] actions[i])
    } else {
        claimed_layout(after) == Some(layout) && forall|i: int|
            0 <= i < n ==> !(#[trigger] actions[i] is Remove) && !ends(actions[i])
    }
}

/// Once the workspace has been claimed, no launch ends without removing the
/// socket and the PID file right before, and until it ends it keeps them.
#[verifier::rlimit(40)]
pub proof fn law_claim_is_released(setting: Setting, phase: LaunchPhaseView, event: LaunchEventView)
    ensures
        claimed_layout(phase) matches Some(layout) ==> keeps_claim(
            layout,
            launch_step(setting, phase, event),
        ),
        phase is Claiming && event is Done ==> keeps_claim(
            phase->Claiming_layout,
            launch_step(setting, phase, event),
        ),
{
    match phase {
        LaunchPhaseView::Claiming { layout } => {
            if let Some(path) = setting.sandbox_bin {
                lemma_with_sandbox(setting, layout, resolved(path, setting.build_dir));
            } else {
                lemma_finding_sandbox(setting, layout, searching(setting, "sandbox"@));
            }
        },
        LaunchPhaseView::FindingSandbox { layout, search } => {
            if let LaunchEventView::Answered(answer) = event {
                let phase = search_step(search.lookup, search.phase, answer);
                lemma_finding_sandbox(setting, layout, BinarySearchView { phase, ..search });
            }
        },
        LaunchPhaseView::FindingExecd { layout, sandbox, search } => {
            if let LaunchEventView::Answered(answer) = event {
                let phase = search_step(search.lookup, search.phase, answer);
                lemma_finding_execd(layout, sandbox, BinarySearchView { phase, ..search });
            }
        },
        LaunchPhaseView::AwaitingSocket { layout, stage } => {
            if let LaunchEventView::Looked(look) = event {
                lemma_awaiting(layout, socket_step(stage, look));
            }
        },
        LaunchPhaseView::Recording { layout } => {
            lemma_awaiting(layout, SocketStepView::Look(SocketStage::Socket));
        },
        _ => {},
    }
}

proof fn lemma_awaiting(layout: LayoutView, step: SocketStepView)
    ensures
        keeps_claim(layout, awaiting(layout, step)),
{
}

proof fn lemma_finding_execd(layout: LayoutView, sandbox: Seq<u8>, search: BinarySearchView)
    ensures
        keeps_claim(layout, finding_execd(layout, sandbox, search)),
{
}

proof fn lemma_with_sandbox(setting: Setting, layout: LayoutView, sandbox: Seq<u8>)
    ensures
        keeps_claim(layout, with_sandbox(setting, layout, sandbox)),
{
    lemma_finding_execd(layout, sandbox, searching(setting, "grpc_execd"@));
}

proof fn lemma_finding_sandbox(setting: Setting, layout: LayoutView, search: BinarySearchView)
    ensures
        keeps_claim(layout, finding_sandbox(setting, layout, search)),
{
    if let QueryView::Found(path) = question(search.phase) {
        lemma_with_sandbox(setting, layout, path);
    }
}

/// A launch that fails before it has claimed the workspace leaves everything as
/// it is: it reports the failure, and does nothing else.
#[verifier::rlimit(40)]
pub proof fn law_unclaimed_failure_removes_nothing(
    setting: Setting,
    phase: LaunchPhaseView,
    event: LaunchEventView,
)
    ensures
        ({
            let (after, actions) = launch_step(setting, phase, event);
            claimed_layout(phase) is None && !(phase is Claiming && event is Done)
                && after is Over ==> actions.len() <= 1 && forall|i: int| 0 <= i < actions.len() ==> #[trigger] actions[i] is Fail
        }),
{
}

/// A workspace is claimed by creating its PID file, and in no other way.
#[verifier::rlimit(40)]
pub proof fn law_claiming_creates_the_pid_file(
    setting: Setting,
    phase: LaunchPhaseView,
    event: LaunchEventView,
)
    ensures
        ({
            let (after, actions) = launch_step(setting, phase, event);
            &&& claimed_layout(phase) is None && claimed_layout(after) is Some ==> event is Done
                && phase == (LaunchPhaseView::Claiming { layout: claimed_layout(after)->Some_0 })
            &&& !(phase is Claiming) && after is Claiming ==> actions.last()
                == LaunchActionView::Claim(after->Claiming_layout.pid_path)
        }),
{
}

/// A session that is running is left alone: its PID file and socket are neither
/// removed nor claimed.
pub proof fn law_live_session_is_left_alone(
    setting: Setting,
    layout: LayoutView,
    contents: Option<Seq<char>>,
    probe: Probe,
)
    requires
        pid_in(contents) matches Some(pid) && alive(pid, probe) is Some,
    ensures
        launch_step(
            setting,
            LaunchPhaseView::Probing { layout, contents },
            LaunchEventView::Probed(probe),
        ) == failed(LaunchFailureView::Stale(alive(pid_in(contents)->Some_0, probe)->Some_0)),
{
}

/// A phase in which the sandbox has been spawned and has not been waited for.
pub open spec fn has_child(phase: LaunchPhaseView) -> bool {
    phase is Recording || phase is AwaitingSocket || phase is AwaitingExit
}

/// No sandbox is left behind: a launch ends only once its sandbox has ended or
/// has been killed and waited for.
#[verifier::rlimit(40)]
pub proof fn law_no_sandbox_is_left(setting: Setting, phase: LaunchPhaseView, event: LaunchEventView)
    ensures
        ({
            let (after, actions) = launch_step(setting, phase, event);
            has_child(phase) && after is Over ==> {
                ||| event is Waited
                ||| event matches LaunchEventView::Looked(SocketLookView::Ended(_))
                ||| actions.len() > 2 && actions[0] is Kill && actions[1] is Reap
            }
        }),
{
}

/// What a launch does over a run of events, and how far it has come then.
pub open spec fn launch_run(setting: Setting, events: Seq<LaunchEventView>) -> LaunchMove
    decreases events.len(),
{
    if events.len() == 0 {
        launch_start(setting)
    } else {
        let (phase, actions) = launch_run(setting, events.drop_last());
        let (after, more) = launch_step(setting, phase, events.last());
        (after, actions + more)
    }
}

/// A launch ends once, and does nothing after that.
pub proof fn law_launch_ends_once(setting: Setting, events: Seq<LaunchEventView>)
    ensures
        ({
            let (phase, actions) = launch_run(setting, events);
            &&& actions.len() > 0
            &&& phase is Over <==> ends(actions.last())
            &&& forall|i: int| 0 <= i < actions.len() - 1 ==> !ends(#[trigger] actions[i])
        }),
    decreases events.len(),
{
    if events.len() > 0 {
        law_launch_ends_once(setting, events.drop_last());
        let (phase, actions) = launch_run(setting, events.drop_last());
        let (after, more) = launch_step(setting, phase, events.last());
        lemma_step_ends(setting, phase, events.last());
        if more.len() == 0 {
            assert(actions + more =~= actions);
        } else {
            assert((actions + more).last() == more.last());
        }
    }
}

#[verifier::rlimit(40)]
proof fn lemma_step_ends(setting: Setting, phase: LaunchPhaseView, event: LaunchEventView)
    ensures
        ({
            let (after, more) = launch_step(setting, phase, event);
            &&& phase is Over ==> after is Over && more.len() == 0
            &&& more.len() == 0 ==> after == phase
            &&& more.len() > 0 ==> (after is Over <==> ends(more.last()))
            &&& forall|i: int| 0 <= i < more.len() - 1 ==> !ends(#[trigger] more[i])
        }),
{
    law_claim_is_released(setting, phase, event);
}

/// The launcher says that it is ready only once the socket is there.
#[verifier::rlimit(40)]
pub proof fn law_ready_means_socket(setting: Setting, phase: LaunchPhaseView, event: LaunchEventView)
    ensures
        ({
            let (after, actions) = launch_step(setting, phase, event);
            forall|i: int|
                0 <= i < actions.len() && #[trigger] actions[i] is Announce ==> event
                    == LaunchEventView::Looked(SocketLookView::Present)
        }),
{
}

/// grpc_execd is visible inside the sandbox: it lies in the workspace, or in a
/// directory that is mounted read-only.
pub proof fn law_execd_is_visible(layout: LayoutView, execd: Seq<u8>, dir: Seq<u8>)
    requires
        is_parent(dir, execd),
    ensures
        ({
            let args = sandbox_args(layout, execd, dir);
            &&& args[2] == bytes_of("--rw"@) && args[3] == layout.workspace
            &&& within(execd, layout.workspace) || (args[6] == bytes_of("--ro"@) && within(
                execd,
                args[7],
            ))
        }),
{
    law_within_parent(dir, execd);
}

/// The sandbox gets its home, the workspace to write to, and its log. grpc_execd
/// is run with the socket; its directory is mounted read-only exactly where the
/// workspace does not hold it already.
pub proof fn law_sandbox_command_line(layout: LayoutView, execd: Seq<u8>, dir: Seq<u8>)
    ensures
        ({
            let args = sandbox_args(layout, execd, dir);
            let n = args.len() as int;
            &&& n == if within(execd, layout.workspace) {
                10int
            } else {
                12int
            }
            &&& args[0] == encode_utf8("--home"@) && args[1] == layout.home_dir
            &&& args[2] == encode_utf8("--rw"@) && args[3] == layout.workspace
            &&& args[4] == encode_utf8("--log-file"@) && args[5] == layout.log_path
            &&& !within(execd, layout.workspace) ==> args[6] == encode_utf8("--ro"@) && args[7]
                == dir
            &&& args[n - 4] == encode_utf8("--"@) && args[n - 3] == execd
            &&& args[n - 2] == encode_utf8("-addr"@) && args[n - 1] == layout.socket_path
        }),
{
}

/// The socket ends the wait as soon as it is there. While it is not, the wait
/// goes on for ten seconds, as long as the sandbox runs.
pub proof fn law_waiting_for_the_socket(nanos: u64, status: Seq<char>)
    ensures
        socket_step(SocketStage::Socket, SocketLookView::Present) is Ready,
        socket_step(SocketStage::Socket, SocketLookView::Absent) == SocketStepView::Look(
            SocketStage::Clock,
        ),
        nanos > 10_000_000_000 ==> socket_step(
            SocketStage::Clock,
            SocketLookView::Elapsed(nanos),
        ) is TimedOut,
        nanos <= 10_000_000_000 ==> socket_step(
            SocketStage::Clock,
            SocketLookView::Elapsed(nanos),
        ) == SocketStepView::Look(SocketStage::Child),
        socket_step(SocketStage::Child, SocketLookView::Alive) is Pause,
        socket_step(SocketStage::Child, SocketLookView::Ended(status))
            == SocketStepView::ExitedEarly(status),
        SOCKET_TIMEOUT_NANOS == SOCKET_TIMEOUT_SECS * 1_000_000_000,
        SOCKET_TIMEOUT_SECS == 10,
        SOCKET_POLL_MILLIS == 50,
{
}

/// What a look at the socket, the clock or the sandbox can tell.
pub open spec fn answers_look(stage: SocketStage, look: SocketLookView) -> bool {
    match stage {
        SocketStage::Socket => look is Present || look is Absent,
        SocketStage::Clock => look is Elapsed,
        SocketStage::Child => look is Alive || look is Ended,
    }
}

/// A look at something else than was asked for is repeated.
pub proof fn law_a_stray_look_is_repeated(stage: SocketStage, look: SocketLookView)
    ensures
        !answers_look(stage, look) ==> socket_step(stage, look) == SocketStepView::Look(stage),
{
}

/// A launch goes by its command line and its environment, each thing in its
/// place.
pub proof fn law_settings(args: StartArgs, env: Environment)
    ensures
        ({
            let setting = setting_of(args, env);
            &&& setting.workspace == args.workspace@
            &&& setting.sandbox_bin == opt_path(args.sandbox_bin)
            &&& setting.grpc_execd_bin == opt_path(args.grpc_execd_bin)
            &&& setting.build_dir == opt_bytes(env.build_dir)
            &&& setting.xdg_data_home == opt_bytes(env.xdg_data_home)
            &&& setting.home == opt_bytes(env.home)
            &&& setting.path == opt_path(env.path)
            &&& setting.exe == opt_path(env.exe)
        }),
{
}

/// The launcher exits with the code it names, and with 1 on a failure; nothing
/// else ends it.
pub proof fn law_launch_codes(action: LaunchActionView, code: u8, failure: LaunchFailureView)
    ensures
        launch_code(LaunchActionView::Exit(code)) == Some(code),
        launch_code(LaunchActionView::Fail(failure)) == Some(1u8),
        !(action is Exit) && !(action is Fail) ==> launch_code(action) is None,
{
}

/// A launch begins with the workspace as the user sees it. Once that has been
/// resolved it must be a directory.
pub proof fn law_a_workspace_is_resolved(setting: Setting, workspace: Seq<u8>)
    ensures
        launch_start(setting) == (
            LaunchPhaseView::Resolving,
            seq![LaunchActionView::Canonicalize(resolved(setting.workspace, setting.build_dir))],
        ),
        launch_step(
            setting,
            LaunchPhaseView::Resolving,
            LaunchEventView::Canonical(Some(workspace)),
        ) == (LaunchPhaseView::Inspecting { workspace }, seq![LaunchActionView::IsDir(workspace)]),
        launch_step(setting, LaunchPhaseView::Resolving, LaunchEventView::Canonical(None)) == (
            LaunchPhaseView::Over,
            seq![
                LaunchActionView::Fail(
                    LaunchFailureView::Resolve { shown: lossy_utf8(setting.workspace) },
                ),
            ],
        ),
        launch_step(
            setting,
            LaunchPhaseView::Inspecting { workspace },
            LaunchEventView::No,
        ) == (
            LaunchPhaseView::Over,
            seq![
                LaunchActionView::Fail(
                    LaunchFailureView::NotADirectory { shown: lossy_utf8(workspace) },
                ),
            ],
        ),
        ({
            let step = launch_step(
                setting,
                LaunchPhaseView::Inspecting { workspace },
                LaunchEventView::Yes,
            );
            match setup_of(workspace, setting.xdg_data_home, setting.home) {
                Ok(layout) => step == (
                    LaunchPhaseView::MakingState { layout },
                    seq![LaunchActionView::MakeDir(layout.home_dir)],
                ),
                Err(e) => step == (
                    LaunchPhaseView::Over,
                    seq![LaunchActionView::Fail(LaunchFailureView::Setup(e))],
                ),
            }
        }),
{
}

/// Then the directories are made and the workspace is described, and the PID
/// file is read; what could not be made or written ends the launch.
pub proof fn law_a_session_is_laid_out(setting: Setting, layout: LayoutView)
    ensures
        launch_step(
            setting,
            LaunchPhaseView::MakingState { layout },
            LaunchEventView::Done,
        ) == (
            LaunchPhaseView::MakingRuntime { layout },
            seq![LaunchActionView::MakeDir(layout.runtime_dir)],
        ),
        launch_step(
            setting,
            LaunchPhaseView::MakingState { layout },
            LaunchEventView::Failed,
        ) == (
            LaunchPhaseView::Over,
            seq![
                LaunchActionView::Fail(
                    LaunchFailureView::StateDir { shown: lossy_utf8(layout.home_dir) },
                ),
            ],
        ),
        launch_step(
            setting,
            LaunchPhaseView::MakingRuntime { layout },
            LaunchEventView::Done,
        ) == (
            LaunchPhaseView::Describing { layout },
            seq![
                LaunchActionView::Write {
                    path: metadata_path_of(layout),
                    text: toml_entry("path"@, lossy_utf8(layout.workspace)),
                },
            ],
        ),
        launch_step(
            setting,
            LaunchPhaseView::MakingRuntime { layout },
            LaunchEventView::Failed,
        ) == (
            LaunchPhaseView::Over,
            seq![
                LaunchActionView::Fail(
                    LaunchFailureView::RuntimeDir { shown: lossy_utf8(layout.runtime_dir) },
                ),
            ],
        ),
        launch_step(
            setting,
            LaunchPhaseView::Describing { layout },
            LaunchEventView::Done,
        ) == (
            LaunchPhaseView::ReadingPid { layout },
            seq![LaunchActionView::Read(layout.pid_path)],
        ),
        launch_step(
            setting,
            LaunchPhaseView::Describing { layout },
            LaunchEventView::Failed,
        ) == (
            LaunchPhaseView::Over,
            seq![
                LaunchActionView::Fail(
                    LaunchFailureView::Metadata { shown: lossy_utf8(metadata_path_of(layout)) },
                ),
            ],
        ),
{
}

/// A process that the PID file names is probed under that very number. If it
/// runs, whatever the number, the launch fails with it and removes nothing; if
/// it is gone, or none was named, what it left is removed and the PID file
/// created.
pub proof fn law_a_running_session_stops_the_start(
    setting: Setting,
    layout: LayoutView,
    contents: Option<Seq<char>>,
    probe: Probe,
)
    ensures
        ({
            let read = launch_step(
                setting,
                LaunchPhaseView::ReadingPid { layout },
                LaunchEventView::Contents(contents),
            );
            let probed = launch_step(
                setting,
                LaunchPhaseView::Probing { layout, contents },
                LaunchEventView::Probed(probe),
            );
            let starts: LaunchMove = (
                LaunchPhaseView::Claiming { layout },
                seq![
                    LaunchActionView::Remove(stale_files(layout.runtime_dir, contents is Some)),
                    LaunchActionView::Claim(layout.pid_path),
                ],
            );
            match pid_in(contents) {
                Some(pid) => {
                    &&& read == (
                        LaunchPhaseView::Probing { layout, contents },
                        seq![LaunchActionView::Probe(pid)],
                    )
                    &&& probe.ret == 0 ==> probed == (
                        LaunchPhaseView::Over,
                        seq![
                            LaunchActionView::Fail(
                                LaunchFailureView::Stale(StaleError::Running { pid }),
                            ),
                        ],
                    )
                    &&& probe.ret != 0 && probe.errno == 1 ==> probed == (
                        LaunchPhaseView::Over,
                        seq![
                            LaunchActionView::Fail(
                                LaunchFailureView::Stale(StaleError::RunningElsewhere { pid }),
                            ),
                        ],
                    )
                    &&& probe.ret != 0 && probe.errno != 1 ==> probed == starts
                },
                None => read == starts,
            }
        }),
{
}

/// The PID that is recorded for a sandbox is the one that the next start
/// probes.
pub proof fn law_a_recorded_sandbox_is_probed(setting: Setting, layout: LayoutView, pid: u32)
    ensures
        launch_step(
            setting,
            LaunchPhaseView::Spawning { layout },
            LaunchEventView::Spawned(pid),
        ) == (
            LaunchPhaseView::Recording { layout },
            seq![LaunchActionView::Write { path: layout.pid_path, text: decimal(pid as nat) }],
        ),
        pid <= 2147483647 ==> launch_step(
            setting,
            LaunchPhaseView::ReadingPid { layout },
            LaunchEventView::Contents(Some(decimal(pid as nat))),
        ) == (
            LaunchPhaseView::Probing { layout, contents: Some(decimal(pid as nat)) },
            seq![LaunchActionView::Probe(pid as i32)],
        ),
{
    if pid <= 2147483647 {
        let text = decimal(pid as nat);
        law_signed_decimal_reads_back(pid as int);
        law_pid_files(seq![], pid as i32, seq![], text);
        assert(Seq::<char>::empty() + text + Seq::<char>::empty() =~= text);
    }
}

/// A launch that looks for a program asks what the search asks; a program that
/// is nowhere ends it.
pub proof fn law_programs_are_looked_for(
    setting: Setting,
    layout: LayoutView,
    sandbox: Seq<u8>,
    search: BinarySearchView,
)
    ensures
        match question(search.phase) {
            QueryView::Found(path) => {
                &&& finding_execd(layout, sandbox, search) == (
                    LaunchPhaseView::ResolvingExecd { layout, sandbox },
                    seq![LaunchActionView::Canonicalize(path)],
                )
                &&& finding_sandbox(setting, layout, search) == with_sandbox(setting, layout, path)
            },
            QueryView::NotFound => {
                &&& finding_execd(layout, sandbox, search) == (
                    LaunchPhaseView::Over,
                    seq![
                        LaunchActionView::Remove(seq![layout.socket_path, layout.pid_path]),
                        LaunchActionView::Fail(
                            LaunchFailureView::NotFound { name: "grpc_execd"@ },
                        ),
                    ],
                )
                &&& finding_sandbox(setting, layout, search) == (
                    LaunchPhaseView::Over,
                    seq![
                        LaunchActionView::Remove(seq![layout.socket_path, layout.pid_path]),
                        LaunchActionView::Fail(LaunchFailureView::NotFound { name: "sandbox"@ }),
                    ],
                )
            },
            query => {
                &&& finding_execd(layout, sandbox, search) == (
                    LaunchPhaseView::FindingExecd { layout, sandbox, search },
                    seq![LaunchActionView::Ask(query)],
                )
                &&& finding_sandbox(setting, layout, search) == (
                    LaunchPhaseView::FindingSandbox { layout, search },
                    seq![LaunchActionView::Ask(query)],
                )
            },
        },
{
}

/// A program that was named is taken from where the user sees it; one that was
/// not is looked for, by its own name.
pub proof fn law_programs_are_chosen(
    setting: Setting,
    layout: LayoutView,
    sandbox: Seq<u8>,
    name: Seq<char>,
)
    ensures
        match setting.grpc_execd_bin {
            Some(path) => with_sandbox(setting, layout, sandbox) == (
                LaunchPhaseView::ResolvingExecd { layout, sandbox },
                seq![LaunchActionView::Canonicalize(resolved(path, setting.build_dir))],
            ),
            None => with_sandbox(setting, layout, sandbox) == finding_execd(
                layout,
                sandbox,
                searching(setting, "grpc_execd"@),
            ),
        },
        ({
            let step = launch_step(
                setting,
                LaunchPhaseView::Claiming { layout },
                LaunchEventView::Done,
            );
            match setting.sandbox_bin {
                Some(path) => step == with_sandbox(
                    setting,
                    layout,
                    resolved(path, setting.build_dir),
                ),
                None => step == finding_sandbox(
                    setting,
                    layout,
                    searching(setting, "sandbox"@),
                ),
            }
        }),
        searching(setting, name).lookup == lookup_of(
            encode_utf8(name),
            setting.exe,
            setting.path,
        ),
        searching(setting, name).phase == search_start(searching(setting, name).lookup),
        launch_step(setting, LaunchPhaseView::Claiming { layout }, LaunchEventView::Failed) == (
            LaunchPhaseView::Over,
            seq![LaunchActionView::Fail(LaunchFailureView::Claim)],
        ),
{
}

/// An answer takes a search one step on, and the launch with it; what the search
/// goes by, and what was found before, stay.
pub proof fn law_answers_take_searches_on(
    setting: Setting,
    layout: LayoutView,
    sandbox: Seq<u8>,
    search: BinarySearchView,
    answer: AnswerView,
)
    ensures
        ({
            let next = BinarySearchView {
                lookup: search.lookup,
                phase: search_step(search.lookup, search.phase, answer),
            };
            &&& launch_step(
                setting,
                LaunchPhaseView::FindingSandbox { layout, search },
                LaunchEventView::Answered(answer),
            ) == finding_sandbox(setting, layout, next)
            &&& launch_step(
                setting,
                LaunchPhaseView::FindingExecd { layout, sandbox, search },
                LaunchEventView::Answered(answer),
            ) == finding_execd(layout, sandbox, next)
        }),
{
}

/// The sandbox is spawned with grpc_execd in it, as soon as grpc_execd's path is
/// known; a launch that cannot get so far removes what it claimed.
pub proof fn law_the_sandbox_is_spawned(
    setting: Setting,
    layout: LayoutView,
    sandbox: Seq<u8>,
    execd: Seq<u8>,
)
    ensures
        ({
            let resolving = LaunchPhaseView::ResolvingExecd { layout, sandbox };
            let removed = LaunchActionView::Remove(seq![layout.socket_path, layout.pid_path]);
            let step = launch_step(setting, resolving, LaunchEventView::Canonical(Some(execd)));
            &&& match parent_of(execd) {
                Some(dir) => step == (
                    LaunchPhaseView::Spawning { layout },
                    seq![
                        LaunchActionView::Spawn(
                            SandboxCommandView {
                                program: sandbox,
                                args: sandbox_args(layout, execd, dir),
                            },
                        ),
                    ],
                ),
                None => step == (
                    LaunchPhaseView::Over,
                    seq![removed, LaunchActionView::Fail(LaunchFailureView::NoParent)],
                ),
            }
            &&& launch_step(setting, resolving, LaunchEventView::Canonical(None)) == (
                LaunchPhaseView::Over,
                seq![removed, LaunchActionView::Fail(LaunchFailureView::ResolveExecd)],
            )
            &&& launch_step(
                setting,
                LaunchPhaseView::Spawning { layout },
                LaunchEventView::Failed,
            ) == (
                LaunchPhaseView::Over,
                seq![removed, LaunchActionView::Fail(LaunchFailureView::Spawn)],
            )
        }),
{
}

/// Once the sandbox's PID has been recorded its socket is looked for. Where that
/// failed the sandbox is killed, waited for and cleaned up after.
pub proof fn law_a_sandbox_is_recorded(setting: Setting, layout: LayoutView)
    ensures
        launch_step(setting, LaunchPhaseView::Recording { layout }, LaunchEventView::Done) == (
            LaunchPhaseView::AwaitingSocket { layout, stage: SocketStage::Socket },
            seq![LaunchActionView::FindSocket(layout.socket_path)],
        ),
        launch_step(setting, LaunchPhaseView::Recording { layout }, LaunchEventView::Failed) == (
            LaunchPhaseView::Over,
            seq![
                LaunchActionView::Kill,
                LaunchActionView::Reap,
                LaunchActionView::Remove(seq![layout.socket_path, layout.pid_path]),
                LaunchActionView::Fail(LaunchFailureView::RecordPid),
            ],
        ),
{
}

/// While the socket is waited for, the socket, the clock and the sandbox are
/// looked at in turn, with a pause of 50 milliseconds after each round.
pub proof fn law_the_socket_is_awaited(
    setting: Setting,
    layout: LayoutView,
    nanos: u64,
    status: Seq<char>,
)
    ensures
        ({
            let socket = LaunchPhaseView::AwaitingSocket { layout, stage: SocketStage::Socket };
            let clock = LaunchPhaseView::AwaitingSocket { layout, stage: SocketStage::Clock };
            let child = LaunchPhaseView::AwaitingSocket { layout, stage: SocketStage::Child };
            let removed = LaunchActionView::Remove(seq![layout.socket_path, layout.pid_path]);
            &&& launch_step(
                setting,
                socket,
                LaunchEventView::Looked(SocketLookView::Present),
            ) == (
                LaunchPhaseView::AwaitingExit { layout },
                seq![
                    LaunchActionView::Announce("ready: "@ + lossy_utf8(layout.socket_path)),
                    LaunchActionView::AwaitExit,
                ],
            )
            &&& launch_step(
                setting,
                socket,
                LaunchEventView::Looked(SocketLookView::Absent),
            ) == (clock, seq![LaunchActionView::ReadClock])
            &&& nanos <= 10_000_000_000 ==> launch_step(
                setting,
                clock,
                LaunchEventView::Looked(SocketLookView::Elapsed(nanos)),
            ) == (child, seq![LaunchActionView::TryWait])
            &&& nanos > 10_000_000_000 ==> launch_step(
                setting,
                clock,
                LaunchEventView::Looked(SocketLookView::Elapsed(nanos)),
            ) == (
                LaunchPhaseView::Over,
                seq![
                    LaunchActionView::Kill,
                    LaunchActionView::Reap,
                    removed,
                    LaunchActionView::Fail(LaunchFailureView::TimedOut),
                ],
            )
            &&& launch_step(
                setting,
                child,
                LaunchEventView::Looked(SocketLookView::Alive),
            ) == (
                socket,
                seq![
                    LaunchActionView::Sleep(50),
                    LaunchActionView::FindSocket(layout.socket_path),
                ],
            )
            &&& launch_step(
                setting,
                child,
                LaunchEventView::Looked(SocketLookView::Ended(status)),
            ) == (
                LaunchPhaseView::Over,
                seq![
                    removed,
                    LaunchActionView::Fail(LaunchFailureView::ExitedEarly { status }),
                ],
            )
        }),
{
}

/// A look that does not answer what was asked is asked for again.
pub proof fn law_a_stray_look_is_asked_again(
    setting: Setting,
    layout: LayoutView,
    stage: SocketStage,
    look: SocketLookView,
)
    requires
        !answers_look(stage, look),
    ensures
        launch_step(
            setting,
            LaunchPhaseView::AwaitingSocket { layout, stage },
            LaunchEventView::Looked(look),
        ) == (
            LaunchPhaseView::AwaitingSocket { layout, stage },
            seq![
                match stage {
                    SocketStage::Socket => LaunchActionView::FindSocket(layout.socket_path),
                    SocketStage::Clock => LaunchActionView::ReadClock,
                    SocketStage::Child => LaunchActionView::TryWait,
                },
            ],
        ),
{
}

/// The launcher exits with the sandbox's own code, or the last eight bits of it,
/// and with 1 where it has none, after it has removed the socket and the PID
/// file.
pub proof fn law_the_sandboxs_code_is_the_launchers(
    setting: Setting,
    layout: LayoutView,
    code: i32,
)
    ensures
        ({
            let waiting = LaunchPhaseView::AwaitingExit { layout };
            let removed = LaunchActionView::Remove(seq![layout.socket_path, layout.pid_path]);
            &&& 0 <= code <= 255 ==> launch_step(
                setting,
                waiting,
                LaunchEventView::Waited(Some(Some(code))),
            ) == (LaunchPhaseView::Over, seq![removed, LaunchActionView::Exit(code as u8)])
            &&& ({
                let (after, actions) = launch_step(
                    setting,
                    waiting,
                    LaunchEventView::Waited(Some(Some(code))),
                );
                &&& after is Over && actions.len() == 2 && actions[0] == removed
                &&& actions[1] is Exit && (code - actions[1]->Exit_0) % 256 == 0
            })
            &&& launch_step(setting, waiting, LaunchEventView::Waited(Some(None))) == (
                LaunchPhaseView::Over,
                seq![removed, LaunchActionView::Exit(1)],
            )
            &&& launch_step(setting, waiting, LaunchEventView::Waited(None)) == (
                LaunchPhaseView::Over,
                seq![removed, LaunchActionView::Exit(1)],
            )
        }),
{
    law_child_code_is_preserved(code);
}

/// What a phase waits for.
pub open spec fn awaits(phase: LaunchPhaseView, event: LaunchEventView) -> bool {
    match phase {
        LaunchPhaseView::Resolving => event is Canonical,
        LaunchPhaseView::Inspecting { .. } => event is Yes || event is No,
        LaunchPhaseView::MakingState { .. } => event is Done || event is Failed,
        LaunchPhaseView::MakingRuntime { .. } => event is Done || event is Failed,
        LaunchPhaseView::Describing { .. } => event is Done || event is Failed,
        LaunchPhaseView::ReadingPid { .. } => event is Contents,
        LaunchPhaseView::Probing { .. } => event is Probed,
        LaunchPhaseView::Claiming { .. } => event is Done || event is Failed,
        LaunchPhaseView::FindingSandbox { .. } => event is Answered,
        LaunchPhaseView::FindingExecd { .. } => event is Answered,
        LaunchPhaseView::ResolvingExecd { .. } => event is Canonical,
        LaunchPhaseView::Spawning { .. } => event is Spawned || event is Failed,
        LaunchPhaseView::Recording { .. } => event is Done || event is Failed,
        LaunchPhaseView::AwaitingSocket { .. } => event is Looked,
        LaunchPhaseView::AwaitingExit { .. } => event is Waited,
        LaunchPhaseView::Over => false,
    }
}

/// An event that a phase does not wait for changes nothing.
#[verifier::rlimit(40)]
pub proof fn law_stray_events_change_nothing(
    setting: Setting,
    phase: LaunchPhaseView,
    event: LaunchEventView,
)
    requires
        !awaits(phase, event),
    ensures
        launch_step(setting, phase, event) == (phase, Seq::<LaunchActionView>::empty()),
{
}

/// Everything fits a launch but a workspace with more than 255 equal quotes in a
/// row, and a workspace that is laid out must be UTF-8.
pub proof fn law_what_fits_a_launch(
    path: Seq<u8>,
    layout: LayoutView,
    phase: LaunchPhaseView,
    event: LaunchEventView,
)
    ensures
        !(event is Canonical) ==> event_fits(event),
        event_fits(LaunchEventView::Canonical(None)),
        event_fits(LaunchEventView::Canonical(Some(path))) <==> quotes_fit(path),
        phase_fits(LaunchPhaseView::Inspecting { workspace: path }) <==> quotes_fit(path),
        phase_fits(LaunchPhaseView::MakingState { layout }) <==> valid_utf8(layout.workspace)
            && quotes_fit(layout.workspace),
        phase_fits(LaunchPhaseView::MakingRuntime { layout }) <==> valid_utf8(layout.workspace)
            && quotes_fit(layout.workspace),
        !(phase is Inspecting) && !(phase is MakingState) && !(phase is MakingRuntime)
            ==> phase_fits(phase),
{
}

/// What went wrong is said with what is at hand.
pub proof fn law_launch_messages(text: String, setup: SetupError, stale: StaleError)
    ensures
        launch_failure_text(LaunchFailure::Resolve { shown: text }) == "resolving '"@ + text@
            + "'"@,
        launch_failure_text(LaunchFailure::NotADirectory { shown: text }) == "'"@ + text@
            + "' is not a directory"@,
        launch_failure_text(LaunchFailure::Setup(setup)) == setup_error_text(setup),
        launch_failure_text(LaunchFailure::StateDir { shown: text })
            == "creating state directory '"@ + text@ + "'"@,
        launch_failure_text(LaunchFailure::RuntimeDir { shown: text })
            == "creating runtime directory '"@ + text@ + "'"@,
        launch_failure_text(LaunchFailure::Metadata { shown: text }) == "writing '"@ + text@
            + "'"@,
        launch_failure_text(LaunchFailure::Stale(stale)) == stale_error_text(stale),
        launch_failure_text(LaunchFailure::Claim)
            == "claiming workspace (PID file already exists — concurrent launch?)"@,
        launch_failure_text(LaunchFailure::NotFound { name: text }) == "'"@ + text@
            + "' not found alongside wsb or in PATH"@,
        launch_failure_text(LaunchFailure::ResolveExecd) == "resolving grpc_execd path"@,
        launch_failure_text(LaunchFailure::NoParent)
            == "grpc_execd binary has no parent directory"@,
        launch_failure_text(LaunchFailure::Spawn) == "spawning sandbox"@,
        launch_failure_text(LaunchFailure::RecordPid) == "updating PID file"@,
        launch_failure_text(LaunchFailure::TimedOut)
            == "grpc_execd socket did not appear within "@ + decimal(10) + "s"@,
        launch_failure_text(LaunchFailure::ExitedEarly { status: text })
            == "sandbox exited early with "@ + text@,
{
}

/// Actions show all that they say, and a list of them each, in order.
pub proof fn law_launch_action_views(
    actions: Seq<LaunchAction>,
    path: Vec<u8>,
    paths: Vec<Vec<u8>>,
    text: String,
    query: Query,
    command: SandboxCommand,
    pid: i32,
    millis: u64,
    code: u8,
    failure: LaunchFailure,
)
    ensures
        launch_views(actions).len() == actions.len(),
        forall|i: int|
            0 <= i < actions.len() ==> #[trigger] launch_views(actions)[i] == actions[i]@,
        LaunchAction::Canonicalize(path)@ == LaunchActionView::Canonicalize(path@),
        LaunchAction::IsDir(path)@ == LaunchActionView::IsDir(path@),
        LaunchAction::MakeDir(path)@ == LaunchActionView::MakeDir(path@),
        (LaunchAction::Write { path, text })@ == (LaunchActionView::Write {
            path: path@,
            text: text@,
        }),
        LaunchAction::Read(path)@ == LaunchActionView::Read(path@),
        LaunchAction::Probe(pid)@ == LaunchActionView::Probe(pid),
        LaunchAction::Remove(paths)@ == LaunchActionView::Remove(path_list(paths@)),
        LaunchAction::Claim(path)@ == LaunchActionView::Claim(path@),
        LaunchAction::Ask(query)@ == LaunchActionView::Ask(query@),
        LaunchAction::Spawn(command)@ == LaunchActionView::Spawn(command@),
        command@.program == command.program@,
        command@.args == path_list(command.args@),
        LaunchAction::FindSocket(path)@ == LaunchActionView::FindSocket(path@),
        LaunchAction::ReadClock@ is ReadClock,
        LaunchAction::TryWait@ is TryWait,
        LaunchAction::Sleep(millis)@ == LaunchActionView::Sleep(millis),
        LaunchAction::Kill@ is Kill,
        LaunchAction::Reap@ is Reap,
        LaunchAction::Announce(text)@ == LaunchActionView::Announce(text@),
        LaunchAction::AwaitExit@ is AwaitExit,
        LaunchAction::Exit(code)@ == LaunchActionView::Exit(code),
        LaunchAction::Fail(failure)@ == LaunchActionView::Fail(failure@),
{
}

/// Events and looks show all that they say.
pub proof fn law_launch_event_views(
    path: Option<Vec<u8>>,
    contents: Option<String>,
    status: String,
    probe: Probe,
    answer: Answer,
    look: SocketLook,
    pid: u32,
    nanos: u64,
    waited: Option<Option<i32>>,
    step: SocketStage,
)
    ensures
        LaunchEvent::Canonical(path)@ == LaunchEventView::Canonical(opt_path(path)),
        LaunchEvent::Yes@ is Yes,
        LaunchEvent::No@ is No,
        LaunchEvent::Done@ is Done,
        LaunchEvent::Failed@ is Failed,
        LaunchEvent::Contents(contents)@ == LaunchEventView::Contents(opt_text(contents)),
        LaunchEvent::Probed(probe)@ == LaunchEventView::Probed(probe),
        LaunchEvent::Answered(answer)@ == LaunchEventView::Answered(answer@),
        LaunchEvent::Spawned(pid)@ == LaunchEventView::Spawned(pid),
        LaunchEvent::Looked(look)@ == LaunchEventView::Looked(look@),
        LaunchEvent::Waited(waited)@ == LaunchEventView::Waited(waited),
        SocketLook::Present@ is Present,
        SocketLook::Absent@ is Absent,
        SocketLook::Elapsed(nanos)@ == SocketLookView::Elapsed(nanos),
        SocketLook::Alive@ is Alive,
        SocketLook::Ended(status)@ == SocketLookView::Ended(status@),
        SocketStep::Ready@ is Ready,
        SocketStep::Look(step)@ == SocketStepView::Look(step),
        SocketStep::Pause@ is Pause,
        SocketStep::TimedOut@ is TimedOut,
        SocketStep::ExitedEarly(status)@ == SocketStepView::ExitedEarly(status@),
{
}

/// Failures show all that they say.
pub proof fn law_launch_failure_views(text: String, setup: SetupError, stale: StaleError)
    ensures
        (LaunchFailure::Resolve { shown: text })@ == (LaunchFailureView::Resolve { shown: text@ }),
        (LaunchFailure::NotADirectory { shown: text })@ == (LaunchFailureView::NotADirectory {
            shown: text@,
        }),
        LaunchFailure::Setup(setup)@ == LaunchFailureView::Setup(setup@),
        (LaunchFailure::StateDir { shown: text })@ == (LaunchFailureView::StateDir {
            shown: text@,
        }),
        (LaunchFailure::RuntimeDir { shown: text })@ == (LaunchFailureView::RuntimeDir {
            shown: text@,
        }),
        (LaunchFailure::Metadata { shown: text })@ == (LaunchFailureView::Metadata {
            shown: text@,
        }),
        LaunchFailure::Stale(stale)@ == LaunchFailureView::Stale(stale),
        LaunchFailure::Claim@ is Claim,
        (LaunchFailure::NotFound { name: text })@ == (LaunchFailureView::NotFound { name: text@ }),
        LaunchFailure::ResolveExecd@ is ResolveExecd,
        LaunchFailure::NoParent@ is NoParent,
        LaunchFailure::Spawn@ is Spawn,
        LaunchFailure::RecordPid@ is RecordPid,
        LaunchFailure::TimedOut@ is TimedOut,
        (LaunchFailure::ExitedEarly { status: text })@ == (LaunchFailureView::ExitedEarly {
            status: text@,
        }),
{
}

/// Phases show all that they say.
pub proof fn law_launch_phase_views(
    workspace: Vec<u8>,
    layout: Layout,
    contents: Option<String>,
    search: BinarySearch,
    stage: SocketStage,
)
    ensures
        LaunchPhase::Resolving@ is Resolving,
        (LaunchPhase::Inspecting { workspace })@ == (LaunchPhaseView::Inspecting {
            workspace: workspace@,
        }),
        (LaunchPhase::MakingState { layout })@ == (LaunchPhaseView::MakingState {
            layout: layout@,
        }),
        (LaunchPhase::MakingRuntime { layout })@ == (LaunchPhaseView::MakingRuntime {
            layout: layout@,
        }),
        (LaunchPhase::Describing { layout })@ == (LaunchPhaseView::Describing { layout: layout@ }),
        (LaunchPhase::ReadingPid { layout })@ == (LaunchPhaseView::ReadingPid { layout: layout@ }),
        (LaunchPhase::Probing { layout, contents })@ == (LaunchPhaseView::Probing {
            layout: layout@,
            contents: opt_text(contents),
        }),
        (LaunchPhase::Claiming { layout })@ == (LaunchPhaseView::Claiming { layout: layout@ }),
        (LaunchPhase::FindingSandbox { layout, search })@ == (LaunchPhaseView::FindingSandbox {
            layout: layout@,
            search: search_view(search),
        }),
        (LaunchPhase::FindingExecd { layout, sandbox: workspace, search })@ == (
        LaunchPhaseView::FindingExecd {
            layout: layout@,
            sandbox: workspace@,
            search: search_view(search),
        }),
        (LaunchPhase::ResolvingExecd { layout, sandbox: workspace })@ == (
        LaunchPhaseView::ResolvingExecd { layout: layout@, sandbox: workspace@ }),
        (LaunchPhase::Spawning { layout })@ == (LaunchPhaseView::Spawning { layout: layout@ }),
        (LaunchPhase::Recording { layout })@ == (LaunchPhaseView::Recording { layout: layout@ }),
        (LaunchPhase::AwaitingSocket { layout, stage })@ == (LaunchPhaseView::AwaitingSocket {
            layout: layout@,
            stage,
        }),
        (LaunchPhase::AwaitingExit { layout })@ == (LaunchPhaseView::AwaitingExit {
            layout: layout@,
        }),
        LaunchPhase::Over@ is Over,
        search_view(search).lookup == search.lookup@,
        search_view(search).phase == search.phase@,
{
}

} // verus!
