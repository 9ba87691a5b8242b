//! pktexecd: the host-side daemon of pktexec.
//!
//! A connection carries one request. The daemon allows it, spawns the command
//! in a process group of its own, forwards signals to that group, and reports
//! how the command ended.

use crate::client::{after_message, final_code, law_exit_code_is_kept};
use crate::status::{exit_code, reportable, reported_code, WaitStatus};
use crate::text::{decimal, push_decimal, push_signed, signed_decimal};
use crate::wire::{
    decode, encode, law_text_packet, law_verdict_packet, text_packet, texts, unreadable, varint,
    ClientMessage, ClientMessageView, ServerMessage, ServerMessageView, WireError, WireMessage,
};
use vstd::prelude::*;
use vstd::string::*;
use vstd::utf8::encode_utf8;

verus! {

/// The signal that nothing survives.
pub const SIGKILL: i32 = 9;

/// The number of file descriptors that come with a request: stdin, stdout and
/// stderr.
pub const STDIO_FDS: usize = 3;

/// The exit code of a command that could not be spawned.
pub const SPAWN_FAILED_CODE: i32 = 127;

// ---------------------------------------------------------------------------
// Requests
// ---------------------------------------------------------------------------

/// A command to spawn: the program with its arguments, and the directory to
/// spawn it in, if that is not to be the daemon's own.
#[derive(Debug)]
pub struct CommandLine {
    pub argv: Vec<String>,
    pub working_dir: Option<String>,
}

/// What a [`CommandLine`] says.
#[verifier::ext_equal]
pub struct CommandView {
    pub argv: Seq<Seq<char>>,
    pub working_dir: Option<Seq<char>>,
}

impl View for CommandLine {
    type V = CommandView;

    open spec fn view(&self) -> CommandView {
        CommandView {
            argv: texts(self.argv@),
            working_dir: match self.working_dir {
                Some(dir) => Some(dir@),
                None => None,
            },
        }
    }
}

/// Why a request is refused.
#[derive(Debug)]
pub enum RequestError {
    /// Not three file descriptors came with it.
    WrongFdCount(usize),
    /// It could not be decoded.
    Undecodable(WireError),
    /// It is a signal.
    NotARequest(i32),
    /// There is nothing to run.
    EmptyArgv,
}

/// What a [`RequestError`] is, with postcard's own account of it.
pub enum RequestErrorView {
    WrongFdCount(usize),
    Undecodable(postcard::Error),
    NotARequest(i32),
    EmptyArgv,
}

impl View for RequestError {
    type V = RequestErrorView;

    open spec fn view(&self) -> RequestErrorView {
        match self {
            RequestError::WrongFdCount(n) => RequestErrorView::WrongFdCount(*n),
            RequestError::Undecodable(e) => RequestErrorView::Undecodable(e.source),
            RequestError::NotARequest(signo) => RequestErrorView::NotARequest(*signo),
            RequestError::EmptyArgv => RequestErrorView::EmptyArgv,
        }
    }
}

impl RequestError {
    /// What went wrong, in words; postcard's own account is to follow where
    /// there is one.
    pub fn message(&self) -> (res: String)
        ensures
            res@ == (match self@ {
                RequestErrorView::WrongFdCount(n) => "expected 3 fds, got "@ + decimal(n as nat),
                RequestErrorView::Undecodable(_) => "decode ExecRequest"@,
                RequestErrorView::NotARequest(signo) =>
                    "expected ExecRequest, got TermSignal { signo: "@ + signed_decimal(
                    signo as int,
                ) + " }"@,
                RequestErrorView::EmptyArgv => "empty argv"@,
            }),
    {
        match self {
            RequestError::WrongFdCount(n) => {
                let mut res = "expected 3 fds, got ".to_owned();
                push_decimal(&mut res, *n as u64);
                res
            },
            RequestError::Undecodable(_) => "decode ExecRequest".to_owned(),
            RequestError::NotARequest(signo) => {
                let mut res = "expected ExecRequest, got TermSignal { signo: ".to_owned();
                push_signed(&mut res, *signo as i64);
                res.append(" }");
                res
            },
            RequestError::EmptyArgv => "empty argv".to_owned(),
        }
    }
}

/// The command that a first message asks for, if it is a request to run one.
pub open spec fn requested(message: ClientMessageView) -> Result<CommandView, RequestErrorView> {
    match message {
        ClientMessageView::ExecRequest { argv, working_dir } => if argv.len() == 0 {
            Err(RequestErrorView::EmptyArgv)
        } else {
            Ok(
                CommandView {
                    argv,
                    working_dir: if working_dir.len() == 0 {
                        None
                    } else {
                        Some(working_dir)
                    },
                },
            )
        },
        ClientMessageView::TermSignal { signo } => Err(RequestErrorView::NotARequest(signo)),
    }
}

/// The command that a first packet asks for, given the number of file
/// descriptors that came with it.
pub open spec fn accepted(bytes: Seq<u8>, fds: usize) -> Result<CommandView, RequestErrorView> {
    if fds != STDIO_FDS {
        Err(RequestErrorView::WrongFdCount(fds))
    } else {
        match ClientMessage::parsed(bytes) {
            Ok(message) => requested(message),
            Err(e) => Err(RequestErrorView::Undecodable(e)),
        }
    }
}

/// The command that a first message asks for.
pub fn requested_command(message: ClientMessage) -> (res: Result<CommandLine, RequestError>)
    ensures
        match requested(message@) {
            Ok(command) => res matches Ok(c) && c@ == command,
            Err(e) => res is Err && res->Err_0@ == e,
        },
{
    match message {
        ClientMessage::ExecRequest { argv, working_dir } => {
            if argv.len() == 0 {
                return Err(RequestError::EmptyArgv);
            }
            let working_dir = if working_dir.as_str().is_empty() {
                None
            } else {
                Some(working_dir)
            };
            Ok(CommandLine { argv, working_dir })
        },
        ClientMessage::TermSignal { signo } => Err(RequestError::NotARequest(signo)),
    }
}

/// The command that a first packet asks for, given the number of file
/// descriptors that came with it.
pub fn accept_request(bytes: &[u8], fds: usize) -> (res: Result<CommandLine, RequestError>)
    ensures
        match accepted(bytes@, fds) {
            Ok(command) => res matches Ok(c) && c@ == command,
            Err(e) => res is Err && res->Err_0@ == e,
        },
        forall|message: ClientMessageView|
            fds == STDIO_FDS && (#[trigger] ClientMessage::packet(message)).is_prefix_of(bytes@)
                ==> accepted(bytes@, fds) == requested(message),
        fds == STDIO_FDS && unreadable::<ClientMessage>(bytes@) ==> (res matches Err(
            RequestError::Undecodable(_),
        )),
{
    if fds != STDIO_FDS {
        return Err(RequestError::WrongFdCount(fds));
    }
    match decode::<ClientMessage>(bytes) {
        Ok(message) => requested_command(message),
        Err(e) => Err(RequestError::Undecodable(e)),
    }
}

// ---------------------------------------------------------------------------
// Signals
// ---------------------------------------------------------------------------

/// The signal with a given number, if there is one.
pub open spec fn signal_numbered(sig: i32) -> Option<i32> {
    if 1 <= sig <= 31 {
        Some(sig)
    } else {
        None
    }
}

/// Looks a signal up by its number.
///
/// Calls `nix::sys::signal::Signal::try_from`. The contract claims that it
/// knows the numbers from 1 (SIGHUP) to 31 (SIGSYS) and no others, as it does on
/// Linux on x86 and ARM, and that a signal's number is the one it was looked up
/// by.
#[verifier::external_body]
fn known_signal(sig: i32) -> (res: Option<i32>)
    ensures
        res == signal_numbered(sig),
{
    match nix::sys::signal::Signal::try_from(sig) {
        Ok(signal) => Some(signal as i32),
        Err(_) => None,
    }
}

/// A signal to a process group. Without a signal the group is only probed.
#[derive(Debug, Clone, Copy, PartialEq, Eq)]
pub struct GroupSignal {
    pub pgid: i32,
    pub signal: Option<i32>,
}

/// What a signal comes to that is meant for the group of a process: nothing
/// where the process is not known.
pub open spec fn group_signal(pid: i32, sig: i32) -> Option<GroupSignal> {
    if pid > 0 {
        Some(GroupSignal { pgid: pid, signal: signal_numbered(sig) })
    } else {
        None
    }
}

/// The signal to send to the process group that `pid` leads.
pub fn kill_pg(pid: i32, sig: i32) -> (res: Option<GroupSignal>)
    ensures
        res == group_signal(pid, sig),
{
    if pid > 0 {
        Some(GroupSignal { pgid: pid, signal: known_signal(sig) })
    } else {
        None
    }
}

/// The number by which a child's process group is addressed; 0 where the child
/// has none any more.
pub open spec fn group_of(pid: Option<u32>) -> i32 {
    match pid {
        Some(pid) => pid as i32,
        None => 0,
    }
}

// ---------------------------------------------------------------------------
// The connection
// ---------------------------------------------------------------------------

/// How far a connection has come.
#[derive(Debug)]
pub enum Phase {
    /// The request is awaited.
    AwaitRequest,
    /// The verdict is on its way; this command is to be spawned then.
    Allowing(CommandLine),
    /// The command is being spawned.
    Spawning,
    /// The status pipe of the child is being read.
    Checking { pgid: i32 },
    /// The child's setup failed; its exit is awaited.
    SetupFailed,
    /// The command runs.
    Running { pgid: i32 },
    /// The client is gone and the group has been killed; the child's exit is
    /// awaited.
    Abandoned,
    /// The connection is over.
    Closed,
}

/// What a [`Phase`] is.
#[verifier::ext_equal]
pub enum PhaseView {
    AwaitRequest,
    Allowing(CommandView),
    Spawning,
    Checking { pgid: i32 },
    SetupFailed,
    Running { pgid: i32 },
    Abandoned,
    Closed,
}

impl View for Phase {
    type V = PhaseView;

    open spec fn view(&self) -> PhaseView {
        match self {
            Phase::AwaitRequest => PhaseView::AwaitRequest,
            Phase::Allowing(command) => PhaseView::Allowing(command@),
            Phase::Spawning => PhaseView::Spawning,
            Phase::Checking { pgid } => PhaseView::Checking { pgid: *pgid },
            Phase::SetupFailed => PhaseView::SetupFailed,
            Phase::Running { pgid } => PhaseView::Running { pgid: *pgid },
            Phase::Abandoned => PhaseView::Abandoned,
            Phase::Closed => PhaseView::Closed,
        }
    }
}

/// What happens to a connection.
#[derive(Debug)]
pub enum Event {
    /// The first packet came in, with this many file descriptors.
    Request { bytes: Vec<u8>, fds: usize },
    /// The verdict was sent.
    VerdictSent,
    /// The command was spawned.
    Spawned { pid: Option<u32> },
    /// The command could not be spawned.
    SpawnFailed,
    /// The status pipe was read to its end.
    StatusRead { data: Vec<u8> },
    /// A later packet came in. An empty one means that the client is gone.
    Packet { bytes: Vec<u8> },
    /// Receiving a later packet failed.
    RecvFailed,
    /// The child ended.
    Exited { status: WaitStatus },
    /// Receiving the request, sending the verdict, setting up or reading the
    /// status pipe, or waiting for the child failed.
    Broken,
}

/// What an [`Event`] is.
#[verifier::ext_equal]
pub enum EventView {
    Request { bytes: Seq<u8>, fds: usize },
    VerdictSent,
    Spawned { pid: Option<u32> },
    SpawnFailed,
    StatusRead { data: Seq<u8> },
    Packet { bytes: Seq<u8> },
    RecvFailed,
    Exited { status: WaitStatus },
    Broken,
}

impl View for Event {
    type V = EventView;

    open spec fn view(&self) -> EventView {
        match self {
            Event::Request { bytes, fds } => EventView::Request { bytes: bytes@, fds: *fds },
            Event::VerdictSent => EventView::VerdictSent,
            Event::Spawned { pid } => EventView::Spawned { pid: *pid },
            Event::SpawnFailed => EventView::SpawnFailed,
            Event::StatusRead { data } => EventView::StatusRead { data: data@ },
            Event::Packet { bytes } => EventView::Packet { bytes: bytes@ },
            Event::RecvFailed => EventView::RecvFailed,
            Event::Exited { status } => EventView::Exited { status: *status },
            Event::Broken => EventView::Broken,
        }
    }
}

/// How a connection ended.
#[derive(Debug)]
pub enum Outcome {
    /// As it should.
    Finished,
    /// The request was refused.
    Refused(RequestError),
    /// The command could not be spawned.
    NotSpawned,
    /// What the event says went wrong.
    Broken,
}

/// What an [`Outcome`] is.
pub enum OutcomeView {
    Finished,
    Refused(RequestErrorView),
    NotSpawned,
    Broken,
}

impl View for Outcome {
    type V = OutcomeView;

    open spec fn view(&self) -> OutcomeView {
        match self {
            Outcome::Finished => OutcomeView::Finished,
            Outcome::Refused(e) => OutcomeView::Refused(e@),
            Outcome::NotSpawned => OutcomeView::NotSpawned,
            Outcome::Broken => OutcomeView::Broken,
        }
    }
}

/// What the daemon does for a connection.
#[derive(Debug)]
pub enum Action {
    /// Send the verdict.
    SendVerdict(Vec<u8>),
    /// Spawn the command that was allowed, in a process group of its own, with
    /// the client's stdio.
    Spawn(CommandLine),
    /// Read the status pipe to its end.
    ReadStatus,
    /// Send a signal to a process group.
    Signal(GroupSignal),
    /// Wait for the child to end.
    AwaitExit,
    /// Send the exit code; a failure to do so is ignored.
    SendExit(Vec<u8>),
    /// Close the connection.
    Close(Outcome),
}

/// What an [`Action`] is.
#[verifier::ext_equal]
pub enum ActionView {
    SendVerdict(Seq<u8>),
    Spawn(CommandView),
    ReadStatus,
    Signal(GroupSignal),
    AwaitExit,
    SendExit(Seq<u8>),
    Close(OutcomeView),
}

impl View for Action {
    type V = ActionView;

    open spec fn view(&self) -> ActionView {
        match self {
            Action::SendVerdict(bytes) => ActionView::SendVerdict(bytes@),
            Action::Spawn(command) => ActionView::Spawn(command@),
            Action::ReadStatus => ActionView::ReadStatus,
            Action::Signal(signal) => ActionView::Signal(*signal),
            Action::AwaitExit => ActionView::AwaitExit,
            Action::SendExit(bytes) => ActionView::SendExit(bytes@),
            Action::Close(outcome) => ActionView::Close(outcome@),
        }
    }
}

pub open spec fn action_views(actions: Seq<Action>) -> Seq<ActionView> {
    Seq::new(actions.len(), |i: int| actions[i]@)
}

/// The packet that allows a command.
pub open spec fn verdict_packet() -> Seq<u8> {
    ServerMessage::packet((ServerMessageView::FilterResult { allowed: true, reason: seq![] }))
}

/// The packet that reports an exit code.
pub open spec fn exit_packet(code: i32) -> Seq<u8> {
    ServerMessage::packet((ServerMessageView::Exit { code }))
}

/// A signal to a process group, if the group is known.
pub open spec fn signal_group(pgid: i32, sig: i32) -> Seq<ActionView> {
    match group_signal(pgid, sig) {
        Some(signal) => seq![ActionView::Signal(signal)],
        None => seq![],
    }
}

/// The signal that a later message asks for.
pub open spec fn forwarded(pgid: i32, message: Option<ClientMessageView>) -> Seq<ActionView> {
    match message {
        Some(ClientMessageView::TermSignal { signo }) => signal_group(pgid, signo),
        _ => seq![],
    }
}

/// The message that a later packet is read as, if it is one.
pub open spec fn readable(bytes: Seq<u8>) -> Option<ClientMessageView> {
    match ClientMessage::parsed(bytes) {
        Ok(message) => Some(message),
        Err(_) => None,
    }
}

/// What the daemon does when the client is gone: the group is killed.
pub open spec fn abandoned(pgid: i32) -> (PhaseView, Seq<ActionView>) {
    (PhaseView::Abandoned, signal_group(pgid, SIGKILL).push(ActionView::AwaitExit))
}

/// What the daemon does with a request, and how far the connection has come
/// then: a command is allowed, anything else closes the connection.
pub open spec fn answered(request: Result<CommandView, RequestErrorView>) -> (
    PhaseView,
    Seq<ActionView>,
) {
    match request {
        Ok(command) => (
            PhaseView::Allowing(command),
            seq![ActionView::SendVerdict(verdict_packet())],
        ),
        Err(e) => (PhaseView::Closed, seq![ActionView::Close(OutcomeView::Refused(e))]),
    }
}

/// What the daemon does on an event, and how far the connection has come then.
pub open spec fn daemon_step(phase: PhaseView, event: EventView) -> (PhaseView, Seq<ActionView>) {
    match (phase, event) {
        (PhaseView::AwaitRequest, EventView::Request { bytes, fds }) => answered(
            accepted(bytes, fds),
        ),
        (PhaseView::Allowing(command), EventView::VerdictSent) => (
            PhaseView::Spawning,
            seq![ActionView::Spawn(command)],
        ),
        (PhaseView::Spawning, EventView::Spawned { pid }) => (
            PhaseView::Checking { pgid: group_of(pid) },
            seq![ActionView::ReadStatus],
        ),
        (PhaseView::Spawning, EventView::SpawnFailed) => (
            PhaseView::Closed,
            seq![
                ActionView::SendExit(exit_packet(SPAWN_FAILED_CODE)),
                ActionView::Close(OutcomeView::NotSpawned),
            ],
        ),
        (PhaseView::Checking { pgid }, EventView::StatusRead { data }) => if data.len() == 0 {
            (PhaseView::Running { pgid }, seq![])
        } else {
            (PhaseView::SetupFailed, seq![ActionView::AwaitExit])
        },
        (PhaseView::SetupFailed, EventView::Exited { status }) => (
            PhaseView::Closed,
            seq![
                ActionView::SendExit(exit_packet(reported_code(status) as i32)),
                ActionView::Close(OutcomeView::Finished),
            ],
        ),
        (PhaseView::Running { pgid }, EventView::Packet { bytes }) => if bytes.len() == 0 {
            abandoned(pgid)
        } else {
            (phase, forwarded(pgid, readable(bytes)))
        },
        (PhaseView::Running { pgid }, EventView::RecvFailed) => abandoned(pgid),
        (PhaseView::Running { pgid }, EventView::Exited { status }) => (
            PhaseView::Closed,
            signal_group(pgid, SIGKILL) + seq![
                ActionView::SendExit(exit_packet(reported_code(status) as i32)),
                ActionView::Close(OutcomeView::Finished),
            ],
        ),
        (PhaseView::Abandoned, EventView::Exited { .. }) => (
            PhaseView::Closed,
            seq![ActionView::Close(OutcomeView::Finished)],
        ),
        (PhaseView::Abandoned, EventView::Broken) => (
            PhaseView::Closed,
            seq![ActionView::Close(OutcomeView::Finished)],
        ),
        (PhaseView::Closed, _) => (phase, seq![]),
        (_, EventView::Broken) => (
            PhaseView::Closed,
            seq![ActionView::Close(OutcomeView::Broken)],
        ),
        _ => (phase, seq![]),
    }
}

fn one(action: Action) -> (res: Vec<Action>)
    ensures
        action_views(res@) == seq![action@],
{
    let mut actions: Vec<Action> = Vec::new();
    actions.push(action);
    assert(action_views(actions@) =~= seq![action@]);
    actions
}

fn push_action(actions: &mut Vec<Action>, action: Action)
    ensures
        action_views(final(actions)@) == action_views(old(actions)@).push(action@),
{
    let ghost before = action_views(actions@);
    actions.push(action);
    assert(action_views(actions@) =~= before.push(action@));
}

fn to_group(pgid: i32, sig: i32) -> (res: Vec<Action>)
    ensures
        action_views(res@) == signal_group(pgid, sig),
{
    match kill_pg(pgid, sig) {
        Some(signal) => one(Action::Signal(signal)),
        None => {
            let actions: Vec<Action> = Vec::new();
            assert(action_views(actions@) =~= seq![]);
            actions
        },
    }
}

/// The packet that allows a command. No filter is loaded: every command is
/// allowed.
pub fn allow_verdict() -> (res: Vec<u8>)
    ensures
        res@ == verdict_packet(),
{
    let verdict = ServerMessage::FilterResult { allowed: true, reason: String::new() };
    assert(verdict@ == (ServerMessageView::FilterResult { allowed: true, reason: seq![] }));
    encode(&verdict).unwrap()
}

/// The packet that reports an exit code.
pub fn report_exit(code: i32) -> (res: Vec<u8>)
    ensures
        res@ == exit_packet(code),
{
    encode(&ServerMessage::Exit { code }).unwrap()
}

/// What a later message makes the daemon do: a signal is sent to the group, any
/// other message is ignored.
pub fn forward(pgid: i32, message: &Option<ClientMessage>) -> (res: Vec<Action>)
    ensures
        action_views(res@) == forwarded(
            pgid,
            match *message {
                Some(message) => Some(message@),
                None => None,
            },
        ),
{
    match message {
        Some(ClientMessage::TermSignal { signo }) => to_group(pgid, *signo),
        _ => {
            let actions: Vec<Action> = Vec::new();
            assert(action_views(actions@) =~= seq![]);
            actions
        },
    }
}

/// An event whose numbers the daemon can report.
pub open spec fn event_fits(event: EventView) -> bool {
    event matches EventView::Exited { status } ==> reportable(status)
}

/// A connection to the daemon.
#[derive(Debug)]
pub struct Connection {
    pub phase: Phase,
}

impl Connection {
    /// A connection that has just been accepted.
    pub fn new() -> (res: Connection)
        ensures
            res.phase@ == PhaseView::AwaitRequest,
    {
        Connection { phase: Phase::AwaitRequest }
    }

    fn abandon(&mut self, pgid: i32) -> (res: Vec<Action>)
        ensures
            (final(self).phase@, action_views(res@)) == abandoned(pgid),
    {
        self.phase = Phase::Abandoned;
        let mut actions = to_group(pgid, SIGKILL);
        push_action(&mut actions, Action::AwaitExit);
        actions
    }

    fn close(&mut self, outcome: Outcome) -> (res: Vec<Action>)
        ensures
            final(self).phase@ == PhaseView::Closed,
            action_views(res@) == seq![ActionView::Close(outcome@)],
    {
        self.phase = Phase::Closed;
        one(Action::Close(outcome))
    }

    fn finish(&mut self, first: Vec<Action>, code: i32, outcome: Outcome) -> (res: Vec<Action>)
        ensures
            final(self).phase@ == PhaseView::Closed,
            action_views(res@) == action_views(first@) + seq![
                ActionView::SendExit(exit_packet(code)),
                ActionView::Close(outcome@),
            ],
    {
        self.phase = Phase::Closed;
        let mut actions = first;
        let ghost before = action_views(actions@);
        push_action(&mut actions, Action::SendExit(report_exit(code)));
        push_action(&mut actions, Action::Close(outcome));
        assert(action_views(actions@) =~= before + seq![
            ActionView::SendExit(exit_packet(code)),
            ActionView::Close(outcome@),
        ]);
        actions
    }

    /// Takes an event into account and says what to do, in order. A packet that
    /// the client encoded is taken for the message it carries; one that cannot be
    /// read closes the connection as a request, and is ignored later on.
    #[verifier::rlimit(40)]
    pub fn step(&mut self, event: &Event) -> (res: Vec<Action>)
        requires
            event_fits(event@),
        ensures
            (final(self).phase@, action_views(res@)) == daemon_step(old(self).phase@, event@),
            forall|message: ClientMessageView|
                old(self).phase@ is AwaitRequest && event@ is Request && event@->fds == STDIO_FDS
                    && (#[trigger] ClientMessage::packet(message)).is_prefix_of(
                    event@->Request_bytes,
                ) ==> (final(self).phase@, action_views(res@)) == answered(requested(message)),
            forall|message: ClientMessageView|
                old(self).phase@ is Running && event@ is Packet && (#[trigger] ClientMessage::packet(
                    message,
                )).is_prefix_of(event@->Packet_bytes) ==> final(self).phase@ == old(self).phase@
                    && action_views(res@) == forwarded(
                    old(self).phase@->Running_pgid,
                    Some(message),
                ),
            old(self).phase@ is AwaitRequest && event@ is Request && event@->fds == STDIO_FDS
                && unreadable::<ClientMessage>(event@->Request_bytes) ==> (
            final(self).phase@ is Closed && action_views(res@).len() == 1 && (action_views(
                res@,
            )[0] matches ActionView::Close(
                OutcomeView::Refused(RequestErrorView::Undecodable(_)),
            ))),
            old(self).phase@ is Running && event@ is Packet && event@->Packet_bytes.len() > 0
                && unreadable::<ClientMessage>(event@->Packet_bytes) ==> final(self).phase@ == old(
                self,
            ).phase@ && action_views(res@).len() == 0,
    {
        let mut phase = Phase::Closed;
        std::mem::swap(&mut self.phase, &mut phase);
        match (phase, event) {
            (Phase::AwaitRequest, Event::Request { bytes, fds }) => {
                match accept_request(bytes.as_slice(), *fds) {
                    Ok(command) => {
                        self.phase = Phase::Allowing(command);
                        one(Action::SendVerdict(allow_verdict()))
                    },
                    Err(e) => self.close(Outcome::Refused(e)),
                }
            },
            (Phase::Allowing(command), Event::VerdictSent) => {
                self.phase = Phase::Spawning;
                one(Action::Spawn(command))
            },
            (Phase::Spawning, Event::Spawned { pid }) => {
                let pgid = match pid {
                    Some(pid) => #[verifier::truncate] (*pid as i32),
                    None => 0,
                };
                self.phase = Phase::Checking { pgid };
                one(Action::ReadStatus)
            },
            (Phase::Spawning, Event::SpawnFailed) => {
                // The client has already given up its stdio, so this must be
                // reported via the protocol, not stderr.
                let first: Vec<Action> = Vec::new();
                assert(action_views(first@) =~= seq![]);
                let actions = self.finish(first, SPAWN_FAILED_CODE, Outcome::NotSpawned);
                assert(action_views(actions@) =~= seq![
                    ActionView::SendExit(exit_packet(SPAWN_FAILED_CODE)),
                    ActionView::Close(OutcomeView::NotSpawned),
                ]);
                actions
            },
            (Phase::Checking { pgid }, Event::StatusRead { data }) => {
                if data.len() == 0 {
                    // EOF: the command was executed.
                    self.phase = Phase::Running { pgid };
                    let actions: Vec<Action> = Vec::new();
                    assert(action_views(actions@) =~= seq![]);
                    actions
                } else {
                    // Setup error: the command never started.
                    self.phase = Phase::SetupFailed;
                    one(Action::AwaitExit)
                }
            },
            (Phase::SetupFailed, Event::Exited { status }) => {
                let first: Vec<Action> = Vec::new();
                assert(action_views(first@) =~= seq![]);
                let code = exit_code(status);
                let actions = self.finish(first, code, Outcome::Finished);
                assert(action_views(actions@) =~= seq![
                    ActionView::SendExit(exit_packet(code)),
                    ActionView::Close(OutcomeView::Finished),
                ]);
                actions
            },
            (Phase::Running { pgid }, Event::Packet { bytes }) => {
                if bytes.len() == 0 {
                    self.abandon(pgid)
                } else {
                    self.phase = Phase::Running { pgid };
                    match decode::<ClientMessage>(bytes.as_slice()) {
                        Ok(message) => forward(pgid, &Some(message)),
                        Err(_) => forward(pgid, &None),
                    }
                }
            },
            (Phase::Running { pgid }, Event::RecvFailed) => self.abandon(pgid),
            (Phase::Running { pgid }, Event::Exited { status }) => {
                // Kill any lingering processes in the group.
                let first = to_group(pgid, SIGKILL);
                self.finish(first, exit_code(status), Outcome::Finished)
            },
            (Phase::Abandoned, Event::Exited { .. }) => self.close(Outcome::Finished),
            (Phase::Abandoned, Event::Broken) => self.close(Outcome::Finished),
            (Phase::Closed, _) => {
                let actions: Vec<Action> = Vec::new();
                assert(action_views(actions@) =~= seq![]);
                actions
            },
            (_, Event::Broken) => self.close(Outcome::Broken),
            (phase, _) => {
                self.phase = phase;
                let actions: Vec<Action> = Vec::new();
                assert(action_views(actions@) =~= seq![]);
                actions
            },
        }
    }
}

// ---------------------------------------------------------------------------
// Laws
// ---------------------------------------------------------------------------

/// What the daemon does over a run of events, from the moment the connection is
/// accepted, and how far the connection has come then.
pub open spec fn daemon_run(events: Seq<EventView>) -> (PhaseView, Seq<ActionView>)
    decreases events.len(),
{
    if events.len() == 0 {
        (PhaseView::AwaitRequest, seq![])
    } else {
        let (phase, actions) = daemon_run(events.drop_last());
        let (after, more) = daemon_step(phase, events.last());
        (after, actions + more)
    }
}

/// The verdict comes first, then the command is spawned, then its status pipe
/// is read; each of these happens once at most. The exit code is sent once at
/// most, after the command was to be spawned and right before the connection
/// is closed, and closing is the last thing done. No signal is sent before the
/// status pipe has been read.
pub open spec fn in_order(actions: Seq<ActionView>) -> bool {
    &&& actions.len() > 1 ==> actions[0] == ActionView::SendVerdict(verdict_packet())
    &&& actions.len() > 2 ==> actions[1] is Spawn
    &&& forall|i: int|
        0 <= i < actions.len() ==> match #[trigger] actions[i] {
            ActionView::SendVerdict(bytes) => i == 0 && bytes == verdict_packet(),
            ActionView::Spawn(_) => i == 1,
            ActionView::ReadStatus => i == 2,
            ActionView::Signal(_) => i > 2 && actions[2] is ReadStatus,
            ActionView::AwaitExit => i > 2 && actions[2] is ReadStatus,
            ActionView::SendExit(_) => i > 1 && i == actions.len() - 2 && actions[i + 1] is Close,
            ActionView::Close(_) => i == actions.len() - 1,
        }
}

/// What has been done when a connection is in a given phase.
spec fn done_by(phase: PhaseView, actions: Seq<ActionView>) -> bool {
    let open = forall|i: int|
        0 <= i < actions.len() ==> !(#[trigger] actions[i] is Close) && !(actions[i] is SendExit);
    match phase {
        PhaseView::AwaitRequest => actions.len() == 0,
        PhaseView::Allowing(_) => open && actions.len() == 1,
        PhaseView::Spawning => open && actions.len() == 2,
        PhaseView::Checking { .. } => open && actions.len() == 3,
        PhaseView::SetupFailed => open && actions.len() == 4 && actions[2] is ReadStatus,
        PhaseView::Running { .. } => open && actions.len() >= 3 && actions[2] is ReadStatus,
        PhaseView::Abandoned => open && actions.len() >= 4 && actions[2] is ReadStatus,
        PhaseView::Closed => actions.len() > 0 && actions.last() is Close,
    }
}

#[verifier::rlimit(40)]
proof fn lemma_run_in_order(events: Seq<EventView>)
    ensures
        in_order(daemon_run(events).1),
        done_by(daemon_run(events).0, daemon_run(events).1),
    decreases events.len(),
{
    if events.len() > 0 {
        lemma_run_in_order(events.drop_last());
    }
}

/// Whatever happens to a connection, the daemon keeps the order of the
/// protocol: one verdict at most, one exit code at most, and nothing once the
/// connection is closed.
pub proof fn law_protocol_order(events: Seq<EventView>)
    ensures
        in_order(daemon_run(events).1),
{
    lemma_run_in_order(events);
}

/// A closed connection stays closed, and the daemon does nothing more for it.
pub proof fn law_closed_is_final(events: Seq<EventView>, more: Seq<EventView>)
    requires
        daemon_run(events).0 is Closed,
    ensures
        daemon_run(events + more) == daemon_run(events),
    decreases more.len(),
{
    if more.len() == 0 {
        assert(events + more =~= events);
    } else {
        law_closed_is_final(events, more.drop_last());
        assert((events + more).drop_last() =~= events + more.drop_last());
        assert((events + more).last() == more.last());
        assert(daemon_run(events).1 + seq![] =~= daemon_run(events).1);
    }
}

/// A request that is refused is answered with nothing: the connection is
/// closed, and no command is ever spawned for it.
pub proof fn law_refused_requests_run_nothing(bytes: Seq<u8>, fds: usize, more: Seq<EventView>)
    ensures
        accepted(bytes, fds) matches Err(e) ==> daemon_run(
            seq![EventView::Request { bytes, fds }] + more,
        ) == (PhaseView::Closed, seq![ActionView::Close(OutcomeView::Refused(e))]),
{
    let first = seq![EventView::Request { bytes, fds }];
    if let Err(e) = accepted(bytes, fds) {
        lemma_run_one(first[0]);
        law_closed_is_final(first, more);
    }
}

proof fn lemma_run_one(event: EventView)
    ensures
        daemon_run(seq![event]) == daemon_step(PhaseView::AwaitRequest, event),
{
    reveal_with_fuel(daemon_run, 2);
    assert(seq![event].drop_last() =~= seq![]);
    let (_, actions) = daemon_step(PhaseView::AwaitRequest, event);
    assert(seq![] + actions =~= actions);
}

/// A request that is accepted is answered with the verdict, exactly once and
/// before anything else is done, whatever else happens to the connection.
pub proof fn law_accepted_requests_are_answered(bytes: Seq<u8>, fds: usize, more: Seq<EventView>)
    ensures
        accepted(bytes, fds) is Ok ==> ({
            let actions = daemon_run(seq![EventView::Request { bytes, fds }] + more).1;
            &&& actions.len() > 0
            &&& actions[0] == ActionView::SendVerdict(verdict_packet())
            &&& forall|i: int|
                0 < i < actions.len() ==> !(#[trigger] actions[i] is SendVerdict)
        }),
{
    let first = seq![EventView::Request { bytes, fds }];
    if accepted(bytes, fds) is Ok {
        lemma_run_one(first[0]);
        lemma_run_extends(first, more);
        law_protocol_order(first + more);
        let actions = daemon_run(first + more).1;
        assert(actions.take(1)[0] == actions[0]);
    }
}

proof fn lemma_run_extends(events: Seq<EventView>, more: Seq<EventView>)
    ensures
        daemon_run(events + more).1.len() >= daemon_run(events).1.len(),
        daemon_run(events + more).1.take(daemon_run(events).1.len() as int) == daemon_run(events).1,
    decreases more.len(),
{
    let before = daemon_run(events).1;
    if more.len() == 0 {
        assert(events + more =~= events);
        assert(before.take(before.len() as int) =~= before);
    } else {
        lemma_run_extends(events, more.drop_last());
        assert((events + more).drop_last() =~= events + more.drop_last());
        let mid = daemon_run(events + more.drop_last()).1;
        let actions = daemon_run(events + more).1;
        assert(actions.take(before.len() as int) =~= mid.take(before.len() as int));
    }
}

/// A run of events holds a request for a command.
pub open spec fn was_requested(events: Seq<EventView>, command: CommandView) -> bool {
    exists|j: int|
        0 <= j < events.len() && #[trigger] events[j] is Request && accepted(
            events[j]->Request_bytes,
            events[j]->fds,
        ) == Ok::<CommandView, RequestErrorView>(command)
}

/// A command that is spawned is one that a request asked for.
pub proof fn law_only_requests_run(events: Seq<EventView>, i: int)
    requires
        0 <= i < daemon_run(events).1.len(),
    ensures
        daemon_run(events).1[i] matches ActionView::Spawn(command) ==> was_requested(
            events,
            command,
        ),
{
    lemma_requested(events);
}

proof fn lemma_requested(events: Seq<EventView>)
    ensures
        daemon_run(events).0 matches PhaseView::Allowing(command) ==> was_requested(
            events,
            command,
        ),
        forall|i: int|
            0 <= i < daemon_run(events).1.len() ==> ((#[trigger] daemon_run(
                events,
            ).1[i]) matches ActionView::Spawn(command) ==> was_requested(events, command)),
    decreases events.len(),
{
    if events.len() > 0 {
        let less = events.drop_last();
        lemma_requested(less);
        assert forall|command: CommandView| was_requested(less, command) implies was_requested(
            events,
            command,
        ) by {
            let j = choose|j: int|
                0 <= j < less.len() && #[trigger] less[j] is Request && accepted(
                    less[j]->Request_bytes,
                    less[j]->fds,
                ) == Ok::<CommandView, RequestErrorView>(command);
            assert(events[j] == less[j]);
        }
        assert(events[events.len() - 1] == events.last());
    }
}

/// When the command ends while the client is there, exactly one exit code is
/// sent, and it is the command's own. Whatever lingers in its process group is
/// killed first.
#[verifier::rlimit(40)]
pub proof fn law_exit_is_reported(events: Seq<EventView>, status: WaitStatus)
    requires
        daemon_run(events).0 is Running || daemon_run(events).0 is SetupFailed,
    ensures
        ({
            let before = daemon_run(events);
            let (phase, actions) = daemon_run(events.push(EventView::Exited { status }));
            let n = actions.len() as int;
            &&& phase is Closed
            &&& actions[n - 2] == ActionView::SendExit(exit_packet(reported_code(status) as i32))
            &&& forall|i: int| 0 <= i < n && i != n - 2 ==> !(#[trigger] actions[i] is SendExit)
            &&& before.0 matches PhaseView::Running { pgid } ==> (pgid > 0 ==> actions[n - 3]
                == ActionView::Signal((GroupSignal { pgid, signal: Some(SIGKILL) })))
        }),
{
    let after = events.push(EventView::Exited { status });
    assert(after.drop_last() =~= events);
    lemma_run_in_order(events);
    lemma_run_in_order(after);
}

/// A client that went away, whether its connection was closed or broke.
pub open spec fn is_disconnect(event: EventView) -> bool {
    event is RecvFailed || (event matches EventView::Packet { bytes } && bytes.len() == 0)
}

/// When the client goes away while the command runs, the command's process
/// group is killed, and no exit code is sent any more.
pub proof fn law_disconnect_kills_the_group(
    events: Seq<EventView>,
    event: EventView,
    more: Seq<EventView>,
)
    requires
        daemon_run(events).0 is Running,
        daemon_run(events).0->Running_pgid > 0,
        is_disconnect(event),
    ensures
        ({
            let pgid = daemon_run(events).0->Running_pgid;
            let n = daemon_run(events).1.len() as int;
            let actions = daemon_run(events.push(event) + more).1;
            &&& actions.len() >= n + 2
            &&& actions.take(n) == daemon_run(events).1
            &&& actions[n] == ActionView::Signal((GroupSignal { pgid, signal: Some(SIGKILL) }))
            &&& actions[n + 1] is AwaitExit
            &&& forall|i: int| 0 <= i < actions.len() ==> !(#[trigger] actions[i] is SendExit)
        }),
{
    let gone = events.push(event);
    let before = daemon_run(events).1;
    let n = before.len() as int;
    lemma_disconnect(events, event);
    lemma_run_extends(gone, more);
    lemma_abandoned(gone, more);
    let mid = daemon_run(gone).1;
    let actions = daemon_run(gone + more).1;
    assert(actions.take(mid.len() as int) == mid);
    assert forall|i: int| 0 <= i < mid.len() implies #[trigger] actions[i] == mid[i] by {
        assert(actions.take(mid.len() as int)[i] == mid[i]);
    }
    assert(actions.take(n) =~= before);
}

/// The step on which the client is found to be gone.
proof fn lemma_disconnect(events: Seq<EventView>, event: EventView)
    requires
        daemon_run(events).0 is Running,
        daemon_run(events).0->Running_pgid > 0,
        is_disconnect(event),
    ensures
        ({
            let pgid = daemon_run(events).0->Running_pgid;
            let kill = ActionView::Signal((GroupSignal { pgid, signal: Some(SIGKILL) }));
            let (phase, actions) = daemon_run(events.push(event));
            &&& phase is Abandoned
            &&& actions == daemon_run(events).1 + seq![kill, ActionView::AwaitExit]
            &&& forall|i: int| 0 <= i < actions.len() ==> !(#[trigger] actions[i] is SendExit)
        }),
{
    let gone = events.push(event);
    let (phase, before) = daemon_run(events);
    let pgid = phase->Running_pgid;
    let kill = ActionView::Signal((GroupSignal { pgid, signal: Some(SIGKILL) }));
    assert(gone.drop_last() =~= events);
    assert(daemon_step(phase, event) == abandoned(pgid));
    assert(abandoned(pgid).1 =~= seq![kill, ActionView::AwaitExit]);
    assert(forall|i: int| 0 <= i < before.len() ==> !(#[trigger] before[i] is SendExit)) by {
        lemma_run_in_order(events);
    }
}

proof fn lemma_abandoned(events: Seq<EventView>, more: Seq<EventView>)
    requires
        daemon_run(events).0 is Abandoned,
    ensures
        ({
            let (phase, actions) = daemon_run(events + more);
            &&& phase is Abandoned || phase is Closed
            &&& forall|i: int|
                daemon_run(events).1.len() <= i < actions.len() ==> !(
                #[trigger] actions[i] is SendExit)
        }),
    decreases more.len(),
{
    if more.len() == 0 {
        assert(events + more =~= events);
    } else {
        lemma_abandoned(events, more.drop_last());
        assert((events + more).drop_last() =~= events + more.drop_last());
    }
}

/// Signals reach the command's own process group and no other: every signal
/// that is sent while a command runs goes to the group that it was spawned in.
pub proof fn law_signals_stay_in_the_group(pgid: i32, event: EventView)
    ensures
        forall|i: int|
            0 <= i < daemon_step(PhaseView::Running { pgid }, event).1.len() ==> ((
            #[trigger] daemon_step(PhaseView::Running { pgid }, event).1[i]) matches
                ActionView::Signal(signal) ==> pgid > 0 && signal.pgid == pgid),
{
}

/// A request to run something is accepted as it stands, with no directory where
/// it names none; one without a program and a signal are not.
pub proof fn law_requests(argv: Seq<Seq<char>>, dir: Seq<char>, signo: i32)
    ensures
        argv.len() > 0 && dir.len() > 0 ==> requested(
            (ClientMessageView::ExecRequest { argv, working_dir: dir }),
        ) == Ok::<CommandView, RequestErrorView>((CommandView { argv, working_dir: Some(dir) })),
        argv.len() > 0 ==> requested(
            (ClientMessageView::ExecRequest { argv, working_dir: seq![] }),
        ) == Ok::<CommandView, RequestErrorView>((CommandView { argv, working_dir: None })),
        requested((ClientMessageView::ExecRequest { argv: seq![], working_dir: dir })) == Err::<
            CommandView,
            RequestErrorView,
        >(RequestErrorView::EmptyArgv),
        requested((ClientMessageView::TermSignal { signo })) == Err::<
            CommandView,
            RequestErrorView,
        >(RequestErrorView::NotARequest(signo)),
{
}

/// A request comes with three descriptors, whatever it says; then what it says
/// counts.
pub proof fn law_acceptance(bytes: Seq<u8>, fds: usize)
    ensures
        fds != 3 ==> accepted(bytes, fds) == Err::<CommandView, RequestErrorView>(
            RequestErrorView::WrongFdCount(fds),
        ),
        match ClientMessage::parsed(bytes) {
            Ok(message) => accepted(bytes, 3) == requested(message),
            Err(e) => accepted(bytes, 3) == Err::<CommandView, RequestErrorView>(
                RequestErrorView::Undecodable(e),
            ),
        },
{
}

/// A group that is known gets the very signal that is meant for it, or is only
/// probed where there is no such signal; one that is not known gets nothing.
pub proof fn law_group_signals(pid: i32, sig: i32)
    ensures
        pid > 0 && 1 <= sig <= 31 ==> group_signal(pid, sig) == Some(
            GroupSignal { pgid: pid, signal: Some(sig) },
        ),
        pid > 0 && !(1 <= sig <= 31) ==> group_signal(pid, sig) == Some(
            GroupSignal { pgid: pid, signal: None },
        ),
        pid <= 0 ==> group_signal(pid, sig) is None,
{
}

/// A child's process group has the child's own number, which is negative where
/// its top bit is set; a child without one has none.
pub proof fn law_groups(pid: u32)
    ensures
        pid <= 2147483647 ==> group_of(Some(pid)) == pid,
        pid > 2147483647 ==> group_of(Some(pid)) == pid - 4294967296,
        group_of(None) == 0,
{
    if pid > 2147483647 {
        assert(pid as i32 == pid - 4294967296) by (bit_vector)
            requires
                pid > 2147483647,
        ;
    }
}

/// A signal from the client reaches the command's group under the very number
/// that was sent, and nothing else is done; a number that is no signal only
/// probes the group.
pub proof fn law_signals_keep_their_number(pgid: i32, signo: i32, bytes: Seq<u8>)
    requires
        pgid > 0,
    ensures
        ({
            let signal = if 1 <= signo <= 31 {
                Some(signo)
            } else {
                None
            };
            let sent = seq![ActionView::Signal((GroupSignal { pgid, signal }))];
            &&& forwarded(pgid, Some(ClientMessageView::TermSignal { signo })) == sent
            &&& bytes.len() > 0 && ClientMessage::parsed(bytes) == Ok::<
                ClientMessageView,
                postcard::Error,
            >((ClientMessageView::TermSignal { signo })) ==> daemon_step(
                PhaseView::Running { pgid },
                EventView::Packet { bytes },
            ) == (PhaseView::Running { pgid }, sent)
        }),
{
}

/// Two different signals are never taken for one another.
pub proof fn law_signals_stay_apart(pgid: i32, a: i32, b: i32)
    requires
        pgid > 0,
        1 <= a <= 31,
        1 <= b <= 31,
        forwarded(pgid, Some(ClientMessageView::TermSignal { signo: a })) == forwarded(
            pgid,
            Some(ClientMessageView::TermSignal { signo: b }),
        ),
    ensures
        a == b,
{
    law_signals_keep_their_number(pgid, a, seq![]);
    law_signals_keep_their_number(pgid, b, seq![]);
    let first = forwarded(pgid, Some(ClientMessageView::TermSignal { signo: a }))[0];
    assert(first->Signal_0.signal == Some(a));
    assert(first->Signal_0.signal == Some(b));
}

/// Nothing else that a client sends while its command runs does anything, nor
/// does a signal for a group that is not known.
pub proof fn law_other_packets_do_nothing(pgid: i32, bytes: Seq<u8>)
    ensures
        bytes.len() > 0 && (pgid <= 0 || !(ClientMessage::parsed(bytes) matches Ok(
            ClientMessageView::TermSignal { .. },
        ))) ==> daemon_step(PhaseView::Running { pgid }, EventView::Packet { bytes }) == (
            PhaseView::Running { pgid },
            Seq::<ActionView>::empty(),
        ),
{
}

/// A command is allowed with an empty reason, and its exit code reported under
/// its own number.
pub proof fn law_packets(code: i32)
    ensures
        verdict_packet() == seq![0u8, 1u8, 0u8],
        exit_packet(code) == ServerMessage::packet((ServerMessageView::Exit { code })),
{
    let p = verdict_packet();
    law_verdict_packet(true, seq![]);
    assert(encode_utf8(seq![]) =~= seq![]);
    law_text_packet(seq![]);
    assert(varint(0) =~= seq![0u8]);
    assert(text_packet(seq![]) =~= seq![0u8]);
    assert(p.skip(2) == seq![0u8]);
    assert(p.len() == 3);
    assert(p[2] == p.skip(2)[0]);
    assert(p =~= seq![0u8, 1u8, 0u8]);
}

/// A request that is accepted is allowed, then spawned, then its status pipe is
/// read; an empty pipe means that the command runs.
pub proof fn law_a_command_is_started(
    bytes: Seq<u8>,
    fds: usize,
    command: CommandView,
    pid: Option<u32>,
    pgid: i32,
    data: Seq<u8>,
)
    ensures
        accepted(bytes, fds) == Ok::<CommandView, RequestErrorView>(command) ==> daemon_step(
            PhaseView::AwaitRequest,
            EventView::Request { bytes, fds },
        ) == (
            PhaseView::Allowing(command),
            seq![ActionView::SendVerdict(seq![0u8, 1u8, 0u8])],
        ),
        daemon_step(PhaseView::Allowing(command), EventView::VerdictSent) == (
            PhaseView::Spawning,
            seq![ActionView::Spawn(command)],
        ),
        daemon_step(PhaseView::Spawning, EventView::Spawned { pid }) == (
            PhaseView::Checking { pgid: group_of(pid) },
            seq![ActionView::ReadStatus],
        ),
        data.len() == 0 ==> daemon_step(
            PhaseView::Checking { pgid },
            EventView::StatusRead { data },
        ) == (PhaseView::Running { pgid }, Seq::<ActionView>::empty()),
        data.len() > 0 ==> daemon_step(
            PhaseView::Checking { pgid },
            EventView::StatusRead { data },
        ) == (PhaseView::SetupFailed, seq![ActionView::AwaitExit]),
{
    law_packets(0);
}

/// A request that is refused closes the connection with the refusal.
pub proof fn law_a_refusal_closes(bytes: Seq<u8>, fds: usize, e: RequestErrorView)
    ensures
        accepted(bytes, fds) == Err::<CommandView, RequestErrorView>(e) ==> daemon_step(
            PhaseView::AwaitRequest,
            EventView::Request { bytes, fds },
        ) == (PhaseView::Closed, seq![ActionView::Close(OutcomeView::Refused(e))]),
{
}

/// The packet that carries an exit code.
pub open spec fn carries_exit(action: ActionView, code: int) -> bool {
    &&& -2147483648 <= code <= 2147483647
    &&& action == ActionView::SendExit(
        ServerMessage::packet((ServerMessageView::Exit { code: code as i32 })),
    )
}

/// A command that exits with a code is reported with that code, one that a
/// signal ended with 128 and the signal's number; what lingers in its group is
/// killed first.
pub proof fn law_an_end_is_reported(pgid: i32, c: i32, s: i32, signal: Option<i32>)
    requires
        pgid > 0,
        s <= 2147483647 - 128,
    ensures
        ({
            let exited = EventView::Exited { status: WaitStatus { code: Some(c), signal } };
            let killed = EventView::Exited {
                status: WaitStatus { code: None, signal: Some(s) },
            };
            let kill = ActionView::Signal((GroupSignal { pgid, signal: Some(9) }));
            let (a, first) = daemon_step(PhaseView::Running { pgid }, exited);
            let (b, second) = daemon_step(PhaseView::Running { pgid }, killed);
            let (d, third) = daemon_step(PhaseView::SetupFailed, exited);
            let (e, fourth) = daemon_step(PhaseView::SetupFailed, killed);
            &&& a is Closed && b is Closed && d is Closed && e is Closed
            &&& first.len() == 3 && first[0] == kill && carries_exit(first[1], c as int)
                && first[2] == ActionView::Close(OutcomeView::Finished)
            &&& second.len() == 3 && second[0] == kill && carries_exit(second[1], 128 + s)
                && second[2] == ActionView::Close(OutcomeView::Finished)
            &&& third.len() == 2 && carries_exit(third[0], c as int) && third[1]
                == ActionView::Close(OutcomeView::Finished)
            &&& fourth.len() == 2 && carries_exit(fourth[0], 128 + s) && fourth[1]
                == ActionView::Close(OutcomeView::Finished)
        }),
{
}

/// A command whose group is not known is reported all the same.
pub proof fn law_an_end_without_a_group(pgid: i32, c: i32, s: i32, signal: Option<i32>)
    requires
        pgid <= 0,
        s <= 2147483647 - 128,
    ensures
        ({
            let exited = EventView::Exited { status: WaitStatus { code: Some(c), signal } };
            let killed = EventView::Exited {
                status: WaitStatus { code: None, signal: Some(s) },
            };
            let (a, first) = daemon_step(PhaseView::Running { pgid }, exited);
            let (b, second) = daemon_step(PhaseView::Running { pgid }, killed);
            &&& a is Closed && b is Closed
            &&& first.len() == 2 && carries_exit(first[0], c as int) && first[1]
                == ActionView::Close(OutcomeView::Finished)
            &&& second.len() == 2 && carries_exit(second[0], 128 + s) && second[1]
                == ActionView::Close(OutcomeView::Finished)
        }),
{
}

/// A command that ended with neither a code nor a signal is reported with 1.
pub proof fn law_an_unexplained_end(pgid: i32)
    ensures
        ({
            let ended = EventView::Exited { status: WaitStatus { code: None, signal: None } };
            let (a, first) = daemon_step(PhaseView::Running { pgid }, ended);
            let (b, second) = daemon_step(PhaseView::SetupFailed, ended);
            let n = first.len() as int;
            &&& a is Closed && b is Closed
            &&& n >= 2 && carries_exit(first[n - 2], 1) && first[n - 1] == ActionView::Close(
                OutcomeView::Finished,
            )
            &&& second.len() == 2 && carries_exit(second[0], 1) && second[1]
                == ActionView::Close(OutcomeView::Finished)
        }),
{
}

/// The code that a command exits with is the one that the client exits with.
pub proof fn law_exit_code_reaches_the_client(pgid: i32, c: i32, signal: Option<i32>)
    requires
        pgid > 0,
        0 <= c <= 255,
    ensures
        ({
            let exited = EventView::Exited { status: WaitStatus { code: Some(c), signal } };
            let sent = daemon_step(PhaseView::Running { pgid }, exited).1[1];
            let message = ServerMessageView::Exit { code: c };
            &&& sent == ActionView::SendExit(ServerMessage::packet(message))
            &&& final_code(after_message(message).1) == Some(c as u8)
        }),
{
    law_an_end_is_reported(pgid, c, 0, signal);
    law_exit_code_is_kept(c);
}

/// A command that cannot be spawned is reported with 127.
pub proof fn law_a_failed_spawn()
    ensures
        ({
            let (phase, actions) = daemon_step(PhaseView::Spawning, EventView::SpawnFailed);
            &&& phase is Closed
            &&& actions.len() == 2 && carries_exit(actions[0], 127) && actions[1]
                == ActionView::Close(OutcomeView::NotSpawned)
        }),
{
}

/// A client that goes away has its command's group killed, and the connection is
/// closed once the command has ended, or cannot be waited for.
pub proof fn law_a_disconnect(pgid: i32, status: WaitStatus)
    ensures
        ({
            let (a, first) = daemon_step(
                PhaseView::Running { pgid },
                EventView::Packet { bytes: seq![] },
            );
            let (b, second) = daemon_step(PhaseView::Running { pgid }, EventView::RecvFailed);
            &&& a is Abandoned && b is Abandoned && first == second
            &&& pgid > 0 ==> first == seq![
                ActionView::Signal((GroupSignal { pgid, signal: Some(9) })),
                ActionView::AwaitExit,
            ]
            &&& pgid <= 0 ==> first == seq![ActionView::AwaitExit]
        }),
        daemon_step(PhaseView::Abandoned, EventView::Exited { status }) == (
            PhaseView::Closed,
            seq![ActionView::Close(OutcomeView::Finished)],
        ),
        daemon_step(PhaseView::Abandoned, EventView::Broken) == (
            PhaseView::Closed,
            seq![ActionView::Close(OutcomeView::Finished)],
        ),
{
    assert(abandoned(pgid).1 =~= signal_group(pgid, 9) + seq![ActionView::AwaitExit]);
}

/// Whatever breaks closes the connection, and nothing more is done for one that
/// is closed.
pub proof fn law_what_breaks_closes(phase: PhaseView, event: EventView)
    ensures
        !(phase is Closed) && !(phase is Abandoned) ==> daemon_step(phase, EventView::Broken) == (
            PhaseView::Closed,
            seq![ActionView::Close(OutcomeView::Broken)],
        ),
        daemon_step(PhaseView::Closed, event) == (
            PhaseView::Closed,
            Seq::<ActionView>::empty(),
        ),
{
}

/// An event that a phase does not wait for.
pub open spec fn out_of_turn(phase: PhaseView, event: EventView) -> bool {
    match event {
        EventView::Request { .. } => !(phase is AwaitRequest),
        EventView::VerdictSent => !(phase is Allowing),
        EventView::Spawned { .. } => !(phase is Spawning),
        EventView::SpawnFailed => !(phase is Spawning),
        EventView::StatusRead { .. } => !(phase is Checking),
        EventView::Packet { .. } => !(phase is Running),
        EventView::RecvFailed => !(phase is Running),
        EventView::Exited { .. } => !(phase is SetupFailed) && !(phase is Running)
            && !(phase is Abandoned),
        EventView::Broken => false,
    }
}

/// An event that a phase does not wait for changes nothing.
pub proof fn law_out_of_turn(phase: PhaseView, event: EventView)
    requires
        out_of_turn(phase, event),
    ensures
        daemon_step(phase, event) == (phase, Seq::<ActionView>::empty()),
{
}

/// Every event can be taken but the end of a process by a signal near the
/// largest numbers.
pub proof fn law_events_that_fit(event: EventView)
    ensures
        !(event is Exited) ==> event_fits(event),
        event matches EventView::Exited { status } ==> (event_fits(event) <==> status.code is Some
            || !(status.signal matches Some(s) && s > 2147483647 - 128)),
{
}

/// A list of actions shows each of them, in order.
pub proof fn law_action_views(actions: Seq<Action>)
    ensures
        action_views(actions).len() == actions.len(),
        forall|i: int|
            0 <= i < actions.len() ==> #[trigger] action_views(actions)[i] == actions[i]@,
{
}

/// Commands, actions, events and phases show all that they say.
pub proof fn law_daemon_views(
    command: CommandLine,
    bytes: Vec<u8>,
    signal: GroupSignal,
    fds: usize,
    pid: Option<u32>,
    pgid: i32,
    status: WaitStatus,
    e: RequestError,
)
    ensures
        command@.argv == texts(command.argv@),
        command.working_dir is Some <==> command@.working_dir is Some,
        command.working_dir matches Some(dir) ==> command@.working_dir == Some(dir@),
        Action::SendVerdict(bytes)@ == ActionView::SendVerdict(bytes@),
        Action::Spawn(command)@ == ActionView::Spawn(command@),
        Action::ReadStatus@ is ReadStatus,
        Action::Signal(signal)@ == ActionView::Signal(signal),
        Action::AwaitExit@ is AwaitExit,
        Action::SendExit(bytes)@ == ActionView::SendExit(bytes@),
        Action::Close(Outcome::Finished)@ == ActionView::Close(OutcomeView::Finished),
        Action::Close(Outcome::NotSpawned)@ == ActionView::Close(OutcomeView::NotSpawned),
        Action::Close(Outcome::Broken)@ == ActionView::Close(OutcomeView::Broken),
        Action::Close(Outcome::Refused(e))@ == ActionView::Close(OutcomeView::Refused(e@)),
        (Event::Request { bytes, fds })@ == (EventView::Request { bytes: bytes@, fds }),
        Event::VerdictSent@ is VerdictSent,
        (Event::Spawned { pid })@ == (EventView::Spawned { pid }),
        Event::SpawnFailed@ is SpawnFailed,
        (Event::StatusRead { data: bytes })@ == (EventView::StatusRead { data: bytes@ }),
        (Event::Packet { bytes })@ == (EventView::Packet { bytes: bytes@ }),
        Event::RecvFailed@ is RecvFailed,
        (Event::Exited { status })@ == (EventView::Exited { status }),
        Event::Broken@ is Broken,
        Phase::AwaitRequest@ is AwaitRequest,
        Phase::Allowing(command)@ == PhaseView::Allowing(command@),
        Phase::Spawning@ is Spawning,
        (Phase::Checking { pgid })@ == (PhaseView::Checking { pgid }),
        Phase::SetupFailed@ is SetupFailed,
        (Phase::Running { pgid })@ == (PhaseView::Running { pgid }),
        Phase::Abandoned@ is Abandoned,
        Phase::Closed@ is Closed,
{
}

} // verus!
