//! pktexec: client for host-side command execution.
//!
//! The client asks the daemon to run a command with its own stdio, and waits
//! for the exit code. Signals are handed on to the command.

use crate::status::{clamp_code, clamped, reported_code, WaitStatus, FAILED_CODE};
use crate::text::{push_signed, same_text, signed_decimal};
use crate::wire::{
    decode, encode, texts, unreadable, ClientMessage, ClientMessageView, ServerMessage,
    ServerMessageView, WireError, WireMessage,
};
use vstd::prelude::*;
use vstd::string::*;

verus! {

/// The socket that is used unless another one is named.
pub const DEFAULT_SOCK: &'static str = "/run/pktexec.sock";

/// The signal numbers that are handed on to the command.
pub const SIGTERM: i32 = 15;

pub const SIGINT: i32 = 2;

pub const SIGQUIT: i32 = 3;

// ---------------------------------------------------------------------------
// Arguments
// ---------------------------------------------------------------------------

/// What is wrong with a command line.
#[derive(Debug, Clone, Copy, PartialEq, Eq)]
pub enum ArgsError {
    /// `--sock` is the last argument.
    SockWithoutValue,
    /// There is nothing to run.
    NoCommand,
}

impl ArgsError {
    /// What went wrong, in words.
    pub fn message(&self) -> (res: &'static str)
        ensures
            res@ == (match self {
                ArgsError::SockWithoutValue => "--sock requires a value"@,
                ArgsError::NoCommand => "no command specified"@,
            }),
    {
        match self {
            ArgsError::SockWithoutValue => "--sock requires a value",
            ArgsError::NoCommand => "no command specified",
        }
    }
}

/// `args` begins with the given argument.
pub open spec fn begins_with(args: Seq<Seq<char>>, arg: Seq<char>) -> bool {
    args.len() > 0 && args[0] == arg
}

/// The arguments without the separator they may begin with.
pub open spec fn without_separator(args: Seq<Seq<char>>) -> Seq<Seq<char>> {
    if begins_with(args, "--"@) {
        args.skip(1)
    } else {
        args
    }
}

/// The socket and the command that a command line asks for: `[--sock PATH]
/// [--] <command> [args...]`. The environment's socket stands in for a missing
/// one, and the default for both.
pub open spec fn parsed_args(args: Seq<Seq<char>>, env_sock: Option<Seq<char>>) -> Result<
    (Seq<char>, Seq<Seq<char>>),
    ArgsError,
> {
    let default_sock = match env_sock {
        Some(sock) => sock,
        None => DEFAULT_SOCK@,
    };
    if begins_with(args, "--sock"@) && args.len() < 2 {
        Err(ArgsError::SockWithoutValue)
    } else {
        let named = begins_with(args, "--sock"@);
        let sock = if named {
            args[1]
        } else {
            default_sock
        };
        let argv = without_separator(
            if named {
                args.skip(2)
            } else {
                args
            },
        );
        if argv.len() == 0 {
            Err(ArgsError::NoCommand)
        } else {
            Ok((sock, argv))
        }
    }
}

fn first_is(args: &Vec<String>, from: usize, arg: &str) -> (res: bool)
    requires
        from <= args@.len(),
    ensures
        res == begins_with(texts(args@).skip(from as int), arg@),
{
    from < args.len() && same_text(args[from].as_str(), arg)
}

fn copy_from(args: &Vec<String>, from: usize) -> (res: Vec<String>)
    requires
        from <= args@.len(),
    ensures
        texts(res@) == texts(args@).skip(from as int),
{
    let mut res: Vec<String> = Vec::new();
    let mut i: usize = from;
    while i < args.len()
        invariant
            from <= i <= args@.len(),
            texts(res@) == texts(args@).subrange(from as int, i as int),
        decreases args.len() - i,
    {
        let ghost before = texts(res@);
        res.push(args[i].clone());
        assert(texts(res@) =~= before.push(args@[i as int]@));
        assert(texts(args@).subrange(from as int, i + 1) =~= before.push(args@[i as int]@));
        i += 1;
    }
    assert(texts(args@).subrange(from as int, i as int) =~= texts(args@).skip(from as int));
    res
}

/// Reads the command line, without the program's own name.
pub fn parse_args(args: &Vec<String>, env_sock: &Option<String>) -> (res: Result<
    (String, Vec<String>),
    ArgsError,
>)
    ensures
        match parsed_args(
            texts(args@),
            match *env_sock {
                Some(sock) => Some(sock@),
                None => None,
            },
        ) {
            Ok((sock, argv)) => res matches Ok(r) && r.0@ == sock && texts(r.1@) == argv,
            Err(e) => res == Err::<(String, Vec<String>), ArgsError>(e),
        },
{
    let mut sock = match env_sock {
        Some(sock) => sock.clone(),
        None => DEFAULT_SOCK.to_owned(),
    };
    let mut from: usize = 0;
    assert(texts(args@).skip(0) =~= texts(args@));
    // Handle --sock option.
    if first_is(args, 0, "--sock") {
        if args.len() < 2 {
            return Err(ArgsError::SockWithoutValue);
        }
        sock = args[1].clone();
        from = 2;
    }
    let ghost rest = texts(args@).skip(from as int);
    // Skip optional --.
    if first_is(args, from, "--") {
        from += 1;
        assert(texts(args@).skip(from as int) =~= rest.skip(1));
    }
    if from == args.len() {
        return Err(ArgsError::NoCommand);
    }
    Ok((sock, copy_from(args, from)))
}

// ---------------------------------------------------------------------------
// The session
// ---------------------------------------------------------------------------

/// The packet that asks for a command to be run.
pub fn exec_request(argv: Vec<String>, working_dir: String) -> (res: Vec<u8>)
    ensures
        res@ == ClientMessage::packet(
            (ClientMessageView::ExecRequest { argv: texts(argv@), working_dir: working_dir@ }),
        ),
{
    encode(&ClientMessage::ExecRequest { argv, working_dir }).unwrap()
}

/// The packet that hands a signal on to the command.
pub fn send_signal(signo: i32) -> (res: Vec<u8>)
    ensures
        res@ == ClientMessage::packet((ClientMessageView::TermSignal { signo })),
{
    encode(&ClientMessage::TermSignal { signo }).unwrap()
}

/// How far a session has come.
#[derive(Debug, Clone, Copy, PartialEq, Eq)]
pub enum ClientPhase {
    /// The request has been sent; the verdict is awaited.
    AwaitVerdict,
    /// The command runs; its exit is awaited.
    Running,
    /// The session is over.
    Ended,
}

/// What happens to a session.
#[derive(Debug)]
pub enum ClientEvent {
    /// A packet came in. An empty one means that the connection was closed.
    Packet(Vec<u8>),
    /// Receiving failed.
    RecvFailed,
    /// The client was sent a signal that it hands on.
    Signal(i32),
}

/// Why a session fails.
#[derive(Debug)]
pub enum ClientFailure {
    /// No verdict could be received.
    NoVerdict,
    /// The verdict could not be decoded.
    BadVerdict(WireError),
    /// An exit code came in place of a verdict.
    UnexpectedExit(i32),
    /// A later message could not be decoded.
    BadMessage(WireError),
}

/// What a session does next.
#[derive(Debug)]
pub enum ClientAction {
    /// Nothing.
    Wait,
    /// Print the [`denial_message`] and exit with [`FAILED_CODE`].
    Deny(String),
    /// Give up the copies of stdio, so that the host process owns the only
    /// ones and downstream readers get EOF when it finishes.
    ReleaseStdio,
    /// Send a packet; a failure to do so is ignored.
    Send(Vec<u8>),
    /// Exit with a code.
    Exit(u8),
    /// Report the failure and exit with [`FAILED_CODE`].
    Fail(ClientFailure),
}

/// What a [`ClientFailure`] is, with postcard's own account of it.
pub enum FailureView {
    NoVerdict,
    BadVerdict(postcard::Error),
    UnexpectedExit(i32),
    BadMessage(postcard::Error),
}

/// What a [`ClientAction`] is, with bytes and characters as sequences.
#[verifier::ext_equal]
pub enum ClientActionView {
    Wait,
    Deny(Seq<char>),
    ReleaseStdio,
    Send(Seq<u8>),
    Exit(u8),
    Fail(FailureView),
}

impl View for ClientFailure {
    type V = FailureView;

    open spec fn view(&self) -> FailureView {
        match self {
            ClientFailure::NoVerdict => FailureView::NoVerdict,
            ClientFailure::BadVerdict(e) => FailureView::BadVerdict(e.source),
            ClientFailure::UnexpectedExit(code) => FailureView::UnexpectedExit(*code),
            ClientFailure::BadMessage(e) => FailureView::BadMessage(e.source),
        }
    }
}

impl View for ClientAction {
    type V = ClientActionView;

    open spec fn view(&self) -> ClientActionView {
        match self {
            ClientAction::Wait => ClientActionView::Wait,
            ClientAction::Deny(reason) => ClientActionView::Deny(reason@),
            ClientAction::ReleaseStdio => ClientActionView::ReleaseStdio,
            ClientAction::Send(bytes) => ClientActionView::Send(bytes@),
            ClientAction::Exit(code) => ClientActionView::Exit(*code),
            ClientAction::Fail(failure) => ClientActionView::Fail(failure@),
        }
    }
}

/// The code that the client exits with after an action, if it ends with it.
pub open spec fn final_code(action: ClientActionView) -> Option<u8> {
    match action {
        ClientActionView::Deny(_) => Some(FAILED_CODE),
        ClientActionView::Exit(code) => Some(code),
        ClientActionView::Fail(_) => Some(FAILED_CODE),
        _ => None,
    }
}

impl ClientAction {
    /// The code that the client exits with after this action, if it ends with
    /// it.
    pub fn exit_code(&self) -> (res: Option<u8>)
        ensures
            res == final_code(self@),
    {
        match self {
            ClientAction::Deny(_) => Some(FAILED_CODE),
            ClientAction::Exit(code) => Some(*code),
            ClientAction::Fail(_) => Some(FAILED_CODE),
            _ => None,
        }
    }
}

/// What the user is told of a command that was denied.
pub fn denial_message(reason: &str) -> (res: String)
    ensures
        res@ == "pktexec: denied: "@ + reason@,
{
    let mut res = "pktexec: denied: ".to_owned();
    res.append(reason);
    res
}

/// What a [`ClientEvent`] is, with bytes as a sequence.
#[verifier::ext_equal]
pub enum ClientEventView {
    Packet(Seq<u8>),
    RecvFailed,
    Signal(i32),
}

impl View for ClientEvent {
    type V = ClientEventView;

    open spec fn view(&self) -> ClientEventView {
        match self {
            ClientEvent::Packet(bytes) => ClientEventView::Packet(bytes@),
            ClientEvent::RecvFailed => ClientEventView::RecvFailed,
            ClientEvent::Signal(signo) => ClientEventView::Signal(*signo),
        }
    }
}

impl ClientFailure {
    /// What went wrong, in words; postcard's own account is to follow where
    /// there is one.
    pub fn message(&self) -> (res: String)
        ensures
            res@ == (match self@ {
                FailureView::NoVerdict => "recv FilterResult"@,
                FailureView::BadVerdict(_) => "decode FilterResult"@,
                FailureView::UnexpectedExit(code) => "expected FilterResult, got Exit { code: "@
                    + signed_decimal(code as int) + " }"@,
                FailureView::BadMessage(_) => "decode server message"@,
            }),
    {
        match self {
            ClientFailure::NoVerdict => "recv FilterResult".to_owned(),
            ClientFailure::BadVerdict(_) => "decode FilterResult".to_owned(),
            ClientFailure::UnexpectedExit(code) => {
                let mut res = "expected FilterResult, got Exit { code: ".to_owned();
                push_signed(&mut res, *code as i64);
                res.append(" }");
                res
            },
            ClientFailure::BadMessage(_) => "decode server message".to_owned(),
        }
    }
}

/// What follows the first message from the daemon.
pub open spec fn after_verdict(message: ServerMessageView) -> (ClientPhase, ClientActionView) {
    match message {
        ServerMessageView::FilterResult { allowed, reason } => if allowed {
            (ClientPhase::Running, ClientActionView::ReleaseStdio)
        } else {
            (ClientPhase::Ended, ClientActionView::Deny(reason))
        },
        ServerMessageView::Exit { code } => (
            ClientPhase::Ended,
            ClientActionView::Fail(FailureView::UnexpectedExit(code)),
        ),
    }
}

/// What follows a later message from the daemon.
pub open spec fn after_message(message: ServerMessageView) -> (ClientPhase, ClientActionView) {
    match message {
        ServerMessageView::FilterResult { .. } => (ClientPhase::Running, ClientActionView::Wait),
        ServerMessageView::Exit { code } => (
            ClientPhase::Ended,
            ClientActionView::Exit(clamped(code as int) as u8),
        ),
    }
}

/// What a session does on an event, and how far it has come then.
pub open spec fn client_step(phase: ClientPhase, event: ClientEventView) -> (
    ClientPhase,
    ClientActionView,
) {
    match (phase, event) {
        (ClientPhase::AwaitVerdict, ClientEventView::Packet(bytes)) => match ServerMessage::parsed(
            bytes,
        ) {
            Ok(message) => after_verdict(message),
            Err(e) => (ClientPhase::Ended, ClientActionView::Fail(FailureView::BadVerdict(e))),
        },
        (ClientPhase::AwaitVerdict, ClientEventView::RecvFailed) => (
            ClientPhase::Ended,
            ClientActionView::Fail(FailureView::NoVerdict),
        ),
        (ClientPhase::Running, ClientEventView::Packet(bytes)) => if bytes.len() == 0 {
            (ClientPhase::Ended, ClientActionView::Exit(FAILED_CODE))
        } else {
            match ServerMessage::parsed(bytes) {
                Ok(message) => after_message(message),
                Err(e) => (ClientPhase::Ended, ClientActionView::Fail(FailureView::BadMessage(e))),
            }
        },
        (ClientPhase::Running, ClientEventView::RecvFailed) => (
            ClientPhase::Ended,
            ClientActionView::Exit(FAILED_CODE),
        ),
        (ClientPhase::Running, ClientEventView::Signal(signo)) => (
            ClientPhase::Running,
            ClientActionView::Send(
                ClientMessage::packet((ClientMessageView::TermSignal { signo })),
            ),
        ),
        _ => (phase, ClientActionView::Wait),
    }
}

/// What follows the first message from the daemon: denied, the session ends;
/// allowed, stdio is given up and the command's exit awaited.
pub fn on_verdict(message: ServerMessage) -> (res: (ClientPhase, ClientAction))
    ensures
        (res.0, res.1@) == after_verdict(message@),
{
    match message {
        ServerMessage::FilterResult { allowed, reason } => if allowed {
            (ClientPhase::Running, ClientAction::ReleaseStdio)
        } else {
            (ClientPhase::Ended, ClientAction::Deny(reason))
        },
        ServerMessage::Exit { code } => (
            ClientPhase::Ended,
            ClientAction::Fail(ClientFailure::UnexpectedExit(code)),
        ),
    }
}

/// What follows a later message from the daemon: an exit code ends the session.
pub fn on_message(message: &ServerMessage) -> (res: (ClientPhase, ClientAction))
    ensures
        (res.0, res.1@) == after_message(message@),
{
    match message {
        ServerMessage::FilterResult { .. } => (ClientPhase::Running, ClientAction::Wait),
        ServerMessage::Exit { code } => (
            ClientPhase::Ended,
            ClientAction::Exit(clamp_code(*code)),
        ),
    }
}

/// A client's session with the daemon, once the request has been sent.
#[derive(Debug)]
pub struct ClientSession {
    pub phase: ClientPhase,
}

impl ClientSession {
    /// A session whose request has just been sent.
    pub fn new() -> (res: ClientSession)
        ensures
            res.phase == ClientPhase::AwaitVerdict,
    {
        ClientSession { phase: ClientPhase::AwaitVerdict }
    }

    /// Takes an event into account and says what to do next. A packet that the
    /// daemon encoded is taken for the message it carries; one that cannot be read
    /// ends the session with a failure.
    pub fn step(&mut self, event: &ClientEvent) -> (res: ClientAction)
        ensures
            (final(self).phase, res@) == client_step(old(self).phase, event@),
            forall|message: ServerMessageView|
                event@ is Packet && (#[trigger] ServerMessage::packet(message)).is_prefix_of(
                    event@->Packet_0,
                ) ==> (final(self).phase, res@) == (match old(self).phase {
                    ClientPhase::AwaitVerdict => after_verdict(message),
                    ClientPhase::Running => after_message(message),
                    ClientPhase::Ended => (ClientPhase::Ended, ClientActionView::Wait),
                }),
            old(self).phase is AwaitVerdict && event@ is Packet && unreadable::<ServerMessage>(
                event@->Packet_0,
            ) ==> final(self).phase is Ended && (res@ matches ClientActionView::Fail(
                FailureView::BadVerdict(_),
            )),
            old(self).phase is Running && event@ is Packet && event@->Packet_0.len() > 0
                && unreadable::<ServerMessage>(event@->Packet_0) ==> final(self).phase is Ended && (
            res@ matches ClientActionView::Fail(FailureView::BadMessage(_))),
    {
        let (phase, action) = match (self.phase, event) {
            (ClientPhase::AwaitVerdict, ClientEvent::Packet(bytes)) => {
                match decode::<ServerMessage>(bytes.as_slice()) {
                    Ok(message) => on_verdict(message),
                    Err(e) => (
                        ClientPhase::Ended,
                        ClientAction::Fail(ClientFailure::BadVerdict(e)),
                    ),
                }
            },
            (ClientPhase::AwaitVerdict, ClientEvent::RecvFailed) => (
                ClientPhase::Ended,
                ClientAction::Fail(ClientFailure::NoVerdict),
            ),
            (ClientPhase::Running, ClientEvent::Packet(bytes)) => {
                if bytes.len() == 0 {
                    (ClientPhase::Ended, ClientAction::Exit(FAILED_CODE))
                } else {
                    match decode::<ServerMessage>(bytes.as_slice()) {
                        Ok(message) => on_message(&message),
                        Err(e) => (
                            ClientPhase::Ended,
                            ClientAction::Fail(ClientFailure::BadMessage(e)),
                        ),
                    }
                }
            },
            (ClientPhase::Running, ClientEvent::RecvFailed) => (
                ClientPhase::Ended,
                ClientAction::Exit(FAILED_CODE),
            ),
            (ClientPhase::Running, ClientEvent::Signal(signo)) => (
                ClientPhase::Running,
                ClientAction::Send(send_signal(*signo)),
            ),
            (phase, _) => (phase, ClientAction::Wait),
        };
        self.phase = phase;
        action
    }
}

// ---------------------------------------------------------------------------
// Laws
// ---------------------------------------------------------------------------

/// What a session does on a run of events.
pub open spec fn client_run(phase: ClientPhase, events: Seq<ClientEventView>) -> (
    ClientPhase,
    Seq<ClientActionView>,
)
    decreases events.len(),
{
    if events.len() == 0 {
        (phase, seq![])
    } else {
        let (before, actions) = client_run(phase, events.drop_last());
        let (after, action) = client_step(before, events.last());
        (after, actions.push(action))
    }
}

/// An action after which the client is gone.
pub open spec fn is_final(action: ClientActionView) -> bool {
    final_code(action) is Some
}

/// A session ends once: after the action that ends it, it does nothing more.
pub proof fn law_client_ends_once(events: Seq<ClientEventView>, i: int, j: int)
    requires
        0 <= i < j < events.len(),
        is_final(client_run(ClientPhase::AwaitVerdict, events).1[i]),
    ensures
        client_run(ClientPhase::AwaitVerdict, events).1[j] is Wait,
{
    lemma_client_prefix(events, i + 1);
    lemma_client_prefix(events, j);
    lemma_client_prefix(events, j + 1);
    lemma_client_final(events, i);
    lemma_client_stays_ended(events, i + 1, j);
    lemma_client_prefix(events.take(j), j);
    assert(events.take(j + 1).drop_last() =~= events.take(j));
    assert(events.take(j + 1).last() == events[j]);
    let run = client_run(ClientPhase::AwaitVerdict, events.take(j + 1)).1;
    assert(run[j] == client_run(ClientPhase::AwaitVerdict, events).1[j]);
}

proof fn lemma_client_prefix(events: Seq<ClientEventView>, n: int)
    requires
        0 <= n <= events.len(),
    ensures
        client_run(ClientPhase::AwaitVerdict, events).1.len() == events.len(),
        client_run(ClientPhase::AwaitVerdict, events.take(n)).1 == client_run(
            ClientPhase::AwaitVerdict,
            events,
        ).1.take(n),
    decreases events.len(),
{
    if events.len() > 0 {
        let less = events.drop_last();
        lemma_client_prefix(less, less.len() as int);
        if n == events.len() {
            assert(events.take(n) =~= events);
        } else {
            lemma_client_prefix(less, n);
            assert(less.take(n) =~= events.take(n));
        }
    }
    let all = client_run(ClientPhase::AwaitVerdict, events).1;
    if n == events.len() {
        assert(events.take(n) =~= events);
        assert(all.take(n) =~= all);
    } else {
        let less = client_run(ClientPhase::AwaitVerdict, events.drop_last()).1;
        assert(all.take(n) =~= less.take(n));
    }
}

proof fn lemma_client_final(events: Seq<ClientEventView>, i: int)
    requires
        0 <= i < events.len(),
        is_final(client_run(ClientPhase::AwaitVerdict, events).1[i]),
    ensures
        client_run(ClientPhase::AwaitVerdict, events.take(i + 1)).0 is Ended,
{
    lemma_client_prefix(events, i + 1);
    let part = events.take(i + 1);
    let run = client_run(ClientPhase::AwaitVerdict, part);
    lemma_client_prefix(part.drop_last(), part.drop_last().len() as int);
    assert(run.1.last() == client_run(ClientPhase::AwaitVerdict, events).1[i]);
}

proof fn lemma_client_stays_ended(events: Seq<ClientEventView>, m: int, n: int)
    requires
        0 <= m <= n <= events.len(),
        client_run(ClientPhase::AwaitVerdict, events.take(m)).0 is Ended,
    ensures
        client_run(ClientPhase::AwaitVerdict, events.take(n)).0 is Ended,
    decreases n - m,
{
    if m < n {
        lemma_client_stays_ended(events, m, n - 1);
        assert(events.take(n).drop_last() =~= events.take(n - 1));
    }
}

/// A signal never ends a session: it is handed on, and the exit code is still
/// awaited.
pub proof fn law_signals_are_handed_on(signo: i32)
    ensures
        client_step(ClientPhase::Running, ClientEventView::Signal(signo)) == (
            ClientPhase::Running,
            ClientActionView::Send(
                ClientMessage::packet((ClientMessageView::TermSignal { signo })),
            ),
        ),
{
}

/// Nothing is sent, and stdio is kept, until the daemon has allowed the
/// command.
pub proof fn law_nothing_before_the_verdict(event: ClientEventView)
    ensures
        ({
            let (phase, action) = client_step(ClientPhase::AwaitVerdict, event);
            &&& !(action is Send)
            &&& (action is ReleaseStdio <==> phase is Running)
            &&& (phase is Running ==> event is Packet && ServerMessage::parsed(event->Packet_0)
                matches Ok(ServerMessageView::FilterResult { allowed: true, .. }))
        }),
{
}

/// A denied command never runs for the client: the session ends with the reason
/// and the code of a failure, stdio is kept, and nothing is sent.
pub proof fn law_denial_ends_the_session(reason: Seq<char>)
    ensures
        ({
            let (phase, action) = after_verdict(
                (ServerMessageView::FilterResult { allowed: false, reason }),
            );
            &&& phase is Ended
            &&& action == ClientActionView::Deny(reason)
            &&& final_code(action) == Some(FAILED_CODE)
        }),
{
}

/// A session is over exactly when the client exits: no action ends the client
/// without ending the session, and every session ends with an exit code.
pub proof fn law_ending_gives_a_code(phase: ClientPhase, event: ClientEventView)
    ensures
        ({
            let (after, action) = client_step(phase, event);
            !(phase is Ended) ==> (after is Ended <==> final_code(action) is Some)
        }),
{
}

/// The exit code that the client ends with is the command's own, or 128 and
/// the number of the signal that ended it.
pub proof fn law_exit_code_is_preserved(status: WaitStatus)
    requires
        0 <= reported_code(status) <= 255,
    ensures
        after_message((ServerMessageView::Exit { code: reported_code(status) as i32 })) == (
            ClientPhase::Ended,
            ClientActionView::Exit(reported_code(status) as u8),
        ),
{
}

/// The socket that a command line without `--sock` asks for: the environment's,
/// else the default one.
pub open spec fn usual_sock(env_sock: Option<Seq<char>>) -> Seq<char> {
    match env_sock {
        Some(sock) => sock,
        None => "/run/pktexec.sock"@,
    }
}

proof fn lemma_options_differ()
    ensures
        "--"@ != "--sock"@,
{
    reveal_strlit("--");
    reveal_strlit("--sock");
    assert("--"@.len() != "--sock"@.len());
}

/// A command is run as it stands, whatever precedes it: with `--sock` the socket
/// is the one that follows, without it the usual one. A separator before the
/// command is dropped, once.
pub proof fn law_command_lines(
    command: Seq<Seq<char>>,
    sock: Seq<char>,
    env_sock: Option<Seq<char>>,
)
    requires
        command.len() > 0,
    ensures
        parsed_args(seq!["--"@] + command, env_sock) == Ok::<
            (Seq<char>, Seq<Seq<char>>),
            ArgsError,
        >((usual_sock(env_sock), command)),
        parsed_args(seq!["--sock"@, sock, "--"@] + command, env_sock) == Ok::<
            (Seq<char>, Seq<Seq<char>>),
            ArgsError,
        >((sock, command)),
        command[0] != "--"@ ==> parsed_args(seq!["--sock"@, sock] + command, env_sock) == Ok::<
            (Seq<char>, Seq<Seq<char>>),
            ArgsError,
        >((sock, command)),
        command[0] != "--"@ && command[0] != "--sock"@ ==> parsed_args(command, env_sock) == Ok::<
            (Seq<char>, Seq<Seq<char>>),
            ArgsError,
        >((usual_sock(env_sock), command)),
{
    lemma_options_differ();
    assert((seq!["--"@] + command).skip(1) =~= command);
    let named = seq!["--sock"@, sock, "--"@] + command;
    assert(named[0] == "--sock"@ && named[1] == sock);
    assert(named.skip(2) =~= seq!["--"@] + command);
    let plain = seq!["--sock"@, sock] + command;
    assert(plain[0] == "--sock"@ && plain[1] == sock);
    assert(plain.skip(2) =~= command);
}

/// A separator in front of a command changes nothing.
pub proof fn law_separator_changes_nothing(
    command: Seq<Seq<char>>,
    env_sock: Option<Seq<char>>,
)
    requires
        command.len() > 0,
        command[0] != "--"@,
        command[0] != "--sock"@,
    ensures
        parsed_args(seq!["--"@] + command, env_sock) == parsed_args(command, env_sock),
{
    law_command_lines(command, seq![], env_sock);
}

/// Nothing can be run without a command, and `--sock` needs a socket.
pub proof fn law_bad_command_lines(sock: Seq<char>, env_sock: Option<Seq<char>>)
    ensures
        parsed_args(seq!["--sock"@], env_sock) == Err::<(Seq<char>, Seq<Seq<char>>), ArgsError>(
            ArgsError::SockWithoutValue,
        ),
        parsed_args(seq![], env_sock) == Err::<(Seq<char>, Seq<Seq<char>>), ArgsError>(
            ArgsError::NoCommand,
        ),
        parsed_args(seq!["--"@], env_sock) == Err::<(Seq<char>, Seq<Seq<char>>), ArgsError>(
            ArgsError::NoCommand,
        ),
        parsed_args(seq!["--sock"@, sock], env_sock) == Err::<
            (Seq<char>, Seq<Seq<char>>),
            ArgsError,
        >(ArgsError::NoCommand),
        parsed_args(seq!["--sock"@, sock, "--"@], env_sock) == Err::<
            (Seq<char>, Seq<Seq<char>>),
            ArgsError,
        >(ArgsError::NoCommand),
{
    lemma_options_differ();
    assert(seq!["--sock"@, sock, "--"@].skip(2) =~= seq!["--"@]);
}

/// The first packet decides: on permission stdio is given up, a denial ends the
/// session with its reason, and anything else is a failure.
pub proof fn law_first_packet(bytes: Seq<u8>)
    ensures
        client_step(ClientPhase::AwaitVerdict, ClientEventView::Packet(bytes)) == (
        match ServerMessage::parsed(bytes) {
            Ok(ServerMessageView::FilterResult { allowed: true, reason: _ }) => (
                ClientPhase::Running,
                ClientActionView::ReleaseStdio,
            ),
            Ok(ServerMessageView::FilterResult { allowed: false, reason }) => (
                ClientPhase::Ended,
                ClientActionView::Deny(reason),
            ),
            Ok(ServerMessageView::Exit { code }) => (
                ClientPhase::Ended,
                ClientActionView::Fail(FailureView::UnexpectedExit(code)),
            ),
            Err(e) => (ClientPhase::Ended, ClientActionView::Fail(FailureView::BadVerdict(e))),
        }),
{
}

/// Later, an exit code that a process can have ends the session with that very
/// code, one out of range with the nearest, and a closed connection with 1.
pub proof fn law_later_packet(bytes: Seq<u8>)
    ensures
        ({
            let (phase, action) = client_step(
                ClientPhase::Running,
                ClientEventView::Packet(bytes),
            );
            &&& bytes.len() == 0 ==> phase is Ended && action == ClientActionView::Exit(1)
            &&& bytes.len() > 0 ==> match ServerMessage::parsed(bytes) {
                Ok(ServerMessageView::Exit { code }) => {
                    &&& phase is Ended
                    &&& action is Exit
                    &&& 0 <= code <= 255 ==> action->Exit_0 == code
                    &&& code < 0 ==> action->Exit_0 == 0
                    &&& code > 255 ==> action->Exit_0 == 255
                },
                Ok(ServerMessageView::FilterResult { .. }) => phase is Running && action is Wait,
                Err(e) => phase is Ended && action == ClientActionView::Fail(
                    FailureView::BadMessage(e),
                ),
            }
        }),
{
}

/// A connection that breaks is a failure before the verdict, and ends the
/// session with 1 after it; signals wait for the verdict; and a session that has
/// ended does nothing more.
pub proof fn law_other_events(event: ClientEventView, signo: i32)
    ensures
        client_step(ClientPhase::AwaitVerdict, ClientEventView::RecvFailed) == (
            ClientPhase::Ended,
            ClientActionView::Fail(FailureView::NoVerdict),
        ),
        client_step(ClientPhase::Running, ClientEventView::RecvFailed) == (
            ClientPhase::Ended,
            ClientActionView::Exit(1),
        ),
        client_step(ClientPhase::AwaitVerdict, ClientEventView::Signal(signo)) == (
            ClientPhase::AwaitVerdict,
            ClientActionView::Wait,
        ),
        client_step(ClientPhase::Ended, event) == (ClientPhase::Ended, ClientActionView::Wait),
{
}

/// An exit code that the daemon reports is the one that the client ends with,
/// and the codes of two commands stay apart.
pub proof fn law_exit_code_is_kept(c: i32)
    requires
        0 <= c <= 255,
    ensures
        after_message((ServerMessageView::Exit { code: c })).0 is Ended,
        final_code(after_message((ServerMessageView::Exit { code: c })).1) is Some,
        final_code(after_message((ServerMessageView::Exit { code: c })).1)->Some_0 == c,
{
}

/// A denial and a failure exit with 1, an exit with its own code; nothing else
/// ends the client.
pub proof fn law_final_codes(
    reason: Seq<char>,
    code: u8,
    failure: FailureView,
    bytes: Seq<u8>,
)
    ensures
        final_code(ClientActionView::Deny(reason)) == Some(1u8),
        final_code(ClientActionView::Exit(code)) == Some(code),
        final_code(ClientActionView::Fail(failure)) == Some(1u8),
        final_code(ClientActionView::Wait) is None,
        final_code(ClientActionView::ReleaseStdio) is None,
        final_code(ClientActionView::Send(bytes)) is None,
{
}

/// Actions and events show all that they say.
pub proof fn law_client_views(text: String, bytes: Vec<u8>, code: u8, n: i32, e: WireError)
    ensures
        ClientAction::Wait@ is Wait,
        ClientAction::ReleaseStdio@ is ReleaseStdio,
        ClientAction::Deny(text)@ == ClientActionView::Deny(text@),
        ClientAction::Send(bytes)@ == ClientActionView::Send(bytes@),
        ClientAction::Exit(code)@ == ClientActionView::Exit(code),
        ClientAction::Fail(ClientFailure::NoVerdict)@ == ClientActionView::Fail(
            FailureView::NoVerdict,
        ),
        ClientAction::Fail(ClientFailure::BadVerdict(e))@ == ClientActionView::Fail(
            FailureView::BadVerdict(e.source),
        ),
        ClientAction::Fail(ClientFailure::UnexpectedExit(n))@ == ClientActionView::Fail(
            FailureView::UnexpectedExit(n),
        ),
        ClientAction::Fail(ClientFailure::BadMessage(e))@ == ClientActionView::Fail(
            FailureView::BadMessage(e.source),
        ),
        ClientEvent::Packet(bytes)@ == ClientEventView::Packet(bytes@),
        ClientEvent::RecvFailed@ is RecvFailed,
        ClientEvent::Signal(n)@ == ClientEventView::Signal(n),
{
}

} // verus!
