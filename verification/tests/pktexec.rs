use agent_shell_tools::client::{
    denial_message, exec_request, parse_args, send_signal, ArgsError, ClientAction, ClientEvent, ClientFailure,
    ClientPhase, ClientSession, DEFAULT_SOCK, SIGINT, SIGQUIT, SIGTERM,
};
use agent_shell_tools::daemon::{
    accept_request, allow_verdict, forward, kill_pg, report_exit, requested_command, Action, Connection,
    Event, GroupSignal, Outcome, Phase, RequestError, SIGKILL,
};
use agent_shell_tools::status::WaitStatus;
use agent_shell_tools::wire::{encode, ClientMessage, ServerMessage};

fn strings(args: &[&str]) -> Vec<String> {
    args.iter().map(|s| s.to_string()).collect()
}

/// How the command fares on the host.
enum Fate {
    SpawnFails,
    Exits(WaitStatus),
}

/// Runs a command through a client and a daemon that are joined directly.
/// Returns the client's exit code.
fn pktexec(args: &[&str], fate: Fate) -> u8 {
    let (_, argv) = parse_args(&strings(args), &None).unwrap();
    let mut daemon = Connection::new();
    let mut client = ClientSession::new();
    let request = exec_request(argv.clone(), "/work".to_string());
    let mut code: Option<u8> = None;
    let mut events = vec![Event::Request { bytes: request, fds: 3 }];
    while let Some(event) = events.pop() {
        for action in daemon.step(&event) {
            match action {
                Action::SendVerdict(bytes) => {
                    let reply = client.step(&ClientEvent::Packet(bytes));
                    assert!(matches!(reply, ClientAction::ReleaseStdio));
                    events.push(Event::VerdictSent);
                }
                Action::Spawn(command) => {
                    assert_eq!(command.argv, argv);
                    assert_eq!(command.working_dir.as_deref(), Some("/work"));
                    events.push(match fate {
                        Fate::SpawnFails => Event::SpawnFailed,
                        Fate::Exits(_) => Event::Spawned { pid: Some(4242) },
                    });
                }
                Action::ReadStatus => {
                    if let Fate::Exits(status) = fate {
                        events.push(Event::Exited { status });
                    }
                    events.push(Event::StatusRead { data: vec![] });
                }
                Action::Signal(signal) => {
                    assert_eq!(signal, GroupSignal { pgid: 4242, signal: Some(SIGKILL) });
                }
                Action::AwaitExit => unreachable!(),
                Action::SendExit(bytes) => {
                    if let ClientAction::Exit(c) = client.step(&ClientEvent::Packet(bytes)) {
                        code = Some(c);
                    }
                }
                Action::Close(_) => {}
            }
        }
    }
    assert!(matches!(daemon.phase, Phase::Closed));
    assert_eq!(client.phase, ClientPhase::Ended);
    code.unwrap()
}

fn exited(code: i32) -> Fate {
    Fate::Exits(WaitStatus { code: Some(code), signal: None })
}

#[test]
fn exit_code_preserved() {
    assert_eq!(pktexec(&["sh", "-c", "exit 42"], exited(42)), 42);
}

#[test]
fn success_is_zero() {
    assert_eq!(pktexec(&["echo", "hello world"], exited(0)), 0);
}

#[test]
fn signal_exit_code() {
    let killed = Fate::Exits(WaitStatus { code: None, signal: Some(SIGINT) });
    assert_eq!(pktexec(&["sh", "-c", "kill -INT $$"], killed), 130);
}

#[test]
fn command_not_found() {
    assert_eq!(pktexec(&["does-not-exist-cmd"], Fate::SpawnFails), 127);
}

#[test]
fn signal_numbers_are_the_systems() {
    assert_eq!(SIGTERM, libc::SIGTERM);
    assert_eq!(SIGINT, libc::SIGINT);
    assert_eq!(SIGQUIT, libc::SIGQUIT);
    assert_eq!(SIGKILL, libc::SIGKILL);
}

// Arguments

#[test]
fn arguments_are_split() {
    let env = Some("/env.sock".to_string());
    let parsed = |args: &[&str]| parse_args(&strings(args), &None);
    assert_eq!(parsed(&["ls", "-l"]).unwrap(), (DEFAULT_SOCK.to_string(), strings(&["ls", "-l"])));
    assert_eq!(
        parse_args(&strings(&["ls"]), &env).unwrap(),
        ("/env.sock".to_string(), strings(&["ls"])),
    );
    assert_eq!(
        parse_args(&strings(&["--sock", "/s", "ls"]), &env).unwrap(),
        ("/s".to_string(), strings(&["ls"])),
    );
    assert_eq!(
        parsed(&["--sock", "/s", "--", "--", "x"]).unwrap(),
        ("/s".to_string(), strings(&["--", "x"])),
    );
    assert_eq!(
        parsed(&["--", "--sock", "x"]).unwrap(),
        (DEFAULT_SOCK.to_string(), strings(&["--sock", "x"])),
    );
    assert_eq!(
        parsed(&["ls", "--sock", "/s"]).unwrap(),
        (DEFAULT_SOCK.to_string(), strings(&["ls", "--sock", "/s"])),
    );
}

#[test]
fn bad_arguments_are_refused() {
    let parsed = |args: &[&str]| parse_args(&strings(args), &None);
    assert_eq!(parsed(&["--sock"]).unwrap_err(), ArgsError::SockWithoutValue);
    assert_eq!(parsed(&[]).unwrap_err(), ArgsError::NoCommand);
    assert_eq!(parsed(&["--"]).unwrap_err(), ArgsError::NoCommand);
    assert_eq!(parsed(&["--sock", "/s"]).unwrap_err(), ArgsError::NoCommand);
    assert_eq!(parsed(&["--sock", "/s", "--"]).unwrap_err(), ArgsError::NoCommand);
    assert_eq!(ArgsError::SockWithoutValue.message(), "--sock requires a value");
    assert_eq!(ArgsError::NoCommand.message(), "no command specified");
}

// Client

fn running() -> ClientSession {
    let mut session = ClientSession::new();
    session.step(&ClientEvent::Packet(allow_verdict()));
    session
}

#[test]
fn a_denied_command_ends_the_session() {
    let denied = ServerMessage::FilterResult { allowed: false, reason: "not here".into() };
    let mut session = ClientSession::new();
    let action = session.step(&ClientEvent::Packet(encode(&denied).unwrap()));
    assert_eq!(action.exit_code(), Some(1));
    match action {
        ClientAction::Deny(reason) => {
            assert_eq!(reason, "not here");
            assert_eq!(denial_message(&reason), "pktexec: denied: not here");
        }
        other => panic!("{other:?}"),
    }
    assert_eq!(session.phase, ClientPhase::Ended);
    assert!(matches!(session.step(&ClientEvent::RecvFailed), ClientAction::Wait));
}

#[test]
fn an_early_exit_is_a_failure() {
    let mut session = ClientSession::new();
    match session.step(&ClientEvent::Packet(report_exit(-3))) {
        ClientAction::Fail(failure) => {
            assert_eq!(failure.message(), "expected FilterResult, got Exit { code: -3 }");
        }
        other => panic!("{other:?}"),
    }
}

#[test]
fn a_missing_verdict_is_a_failure() {
    let mut session = ClientSession::new();
    match session.step(&ClientEvent::RecvFailed) {
        ClientAction::Fail(failure) => assert_eq!(failure.message(), "recv FilterResult"),
        other => panic!("{other:?}"),
    }
    let mut session = ClientSession::new();
    match session.step(&ClientEvent::Packet(vec![])) {
        ClientAction::Fail(failure) => assert_eq!(failure.message(), "decode FilterResult"),
        other => panic!("{other:?}"),
    }
}

#[test]
fn signals_are_handed_on() {
    let mut session = running();
    for signo in [SIGTERM, SIGINT, SIGQUIT] {
        match session.step(&ClientEvent::Signal(signo)) {
            ClientAction::Send(bytes) => {
                assert_eq!(bytes, encode(&ClientMessage::TermSignal { signo }).unwrap());
                assert_eq!(bytes, send_signal(signo));
            }
            other => panic!("{other:?}"),
        }
        assert_eq!(session.phase, ClientPhase::Running);
    }
}

#[test]
fn signals_before_the_verdict_wait() {
    let mut session = ClientSession::new();
    assert!(matches!(session.step(&ClientEvent::Signal(SIGINT)), ClientAction::Wait));
    assert_eq!(session.phase, ClientPhase::AwaitVerdict);
}

#[test]
fn a_lost_connection_exits_with_one() {
    assert!(matches!(running().step(&ClientEvent::RecvFailed), ClientAction::Exit(1)));
    assert!(matches!(running().step(&ClientEvent::Packet(vec![])), ClientAction::Exit(1)));
}

#[test]
fn a_second_verdict_is_ignored() {
    let mut session = running();
    assert!(matches!(session.step(&ClientEvent::Packet(allow_verdict())), ClientAction::Wait));
    assert_eq!(session.phase, ClientPhase::Running);
}

#[test]
fn a_garbled_message_is_a_failure() {
    match running().step(&ClientEvent::Packet(vec![7])) {
        ClientAction::Fail(failure) => {
            assert!(matches!(failure, ClientFailure::BadMessage(_)));
            assert_eq!(failure.message(), "decode server message");
        }
        other => panic!("{other:?}"),
    }
}

#[test]
fn only_final_actions_have_a_code() {
    assert_eq!(ClientSession::new().step(&ClientEvent::RecvFailed).exit_code(), Some(1));
    assert_eq!(ClientSession::new().step(&ClientEvent::Packet(allow_verdict())).exit_code(), None);
    assert_eq!(running().step(&ClientEvent::Signal(SIGINT)).exit_code(), None);
    assert_eq!(running().step(&ClientEvent::Packet(allow_verdict())).exit_code(), None);
    assert_eq!(running().step(&ClientEvent::Packet(report_exit(42))).exit_code(), Some(42));
}

#[test]
fn exit_codes_are_clamped() {
    let ended = |code: i32| match running().step(&ClientEvent::Packet(report_exit(code))) {
        ClientAction::Exit(code) => code,
        other => panic!("{other:?}"),
    };
    assert_eq!(ended(0), 0);
    assert_eq!(ended(255), 255);
    assert_eq!(ended(256), 255);
    assert_eq!(ended(-1), 0);
}

// Daemon

fn request(args: &[&str], dir: &str) -> Vec<u8> {
    exec_request(strings(args), dir.to_string())
}

#[test]
fn requests_are_accepted() {
    let command = accept_request(&request(&["ls", "-l"], "/w"), 3).unwrap();
    assert_eq!(command.argv, strings(&["ls", "-l"]));
    assert_eq!(command.working_dir.as_deref(), Some("/w"));
    let command = accept_request(&request(&["ls"], ""), 3).unwrap();
    assert_eq!(command.working_dir, None);
}

#[test]
fn bad_requests_are_refused() {
    let refused = |bytes: &[u8], fds: usize| accept_request(bytes, fds).unwrap_err();
    let e = refused(&[], 2);
    assert!(matches!(e, RequestError::WrongFdCount(2)));
    assert_eq!(e.message(), "expected 3 fds, got 2");
    let e = refused(&[], 3);
    assert!(matches!(e, RequestError::Undecodable(_)));
    assert_eq!(e.message(), "decode ExecRequest");
    let e = refused(&send_signal(15), 3);
    assert!(matches!(e, RequestError::NotARequest(15)));
    assert_eq!(e.message(), "expected ExecRequest, got TermSignal { signo: 15 }");
    let e = refused(&request(&[], "/w"), 3);
    assert!(matches!(e, RequestError::EmptyArgv));
    assert_eq!(e.message(), "empty argv");
}

#[test]
fn unreadable_requests_close_the_connection() {
    let whole = request(&["ls"], "/w");
    for bytes in [vec![], whole[..whole.len() - 1].to_vec(), vec![2, 0, 0], vec![127]] {
        let mut daemon = Connection::new();
        let actions = daemon.step(&Event::Request { bytes, fds: 3 });
        assert!(matches!(
            &actions[..],
            [Action::Close(Outcome::Refused(RequestError::Undecodable(_)))]
        ));
    }
}

#[test]
fn refusals_do_not_depend_on_decoding() {
    let argv = strings(&["true"]);
    let message = ClientMessage::ExecRequest { argv, working_dir: String::new() };
    assert!(requested_command(message).is_ok());
    let message = ClientMessage::TermSignal { signo: 1 };
    assert!(matches!(requested_command(message), Err(RequestError::NotARequest(1))));
}

#[test]
fn a_refused_request_runs_nothing() {
    let mut daemon = Connection::new();
    let actions = daemon.step(&Event::Request { bytes: request(&["ls"], ""), fds: 0 });
    assert_eq!(actions.len(), 1);
    assert!(matches!(actions[0], Action::Close(Outcome::Refused(RequestError::WrongFdCount(0)))));
    assert!(daemon.step(&Event::VerdictSent).is_empty());
    assert!(matches!(daemon.phase, Phase::Closed));
}

#[test]
fn signals_go_to_known_groups_only() {
    assert_eq!(kill_pg(0, SIGKILL), None);
    assert_eq!(kill_pg(-5, SIGKILL), None);
    assert_eq!(kill_pg(77, SIGTERM), Some(GroupSignal { pgid: 77, signal: Some(15) }));
    for sig in -2..70 {
        let known = if (1..=31).contains(&sig) { Some(sig) } else { None };
        assert_eq!(kill_pg(77, sig), Some(GroupSignal { pgid: 77, signal: known }), "{sig}");
    }
}

fn started(pid: Option<u32>) -> Connection {
    let mut daemon = Connection::new();
    let actions = daemon.step(&Event::Request { bytes: request(&["sleep", "9"], "/w"), fds: 3 });
    assert!(matches!(&actions[..], [Action::SendVerdict(bytes)] if *bytes == allow_verdict()));
    let actions = daemon.step(&Event::VerdictSent);
    assert!(matches!(&actions[..], [Action::Spawn(_)]));
    let actions = daemon.step(&Event::Spawned { pid });
    assert!(matches!(&actions[..], [Action::ReadStatus]));
    assert!(daemon.step(&Event::StatusRead { data: vec![] }).is_empty());
    daemon
}

#[test]
fn forwarded_signals_reach_the_group() {
    let mut daemon = started(Some(9));
    let actions = daemon.step(&Event::Packet { bytes: send_signal(SIGTERM) });
    assert!(matches!(
        &actions[..],
        [Action::Signal(GroupSignal { pgid: 9, signal: Some(15) })]
    ));
    assert!(matches!(daemon.phase, Phase::Running { pgid: 9 }));
}

#[test]
fn other_packets_are_ignored() {
    let mut daemon = started(Some(9));
    assert!(daemon.step(&Event::Packet { bytes: vec![9, 9] }).is_empty());
    assert!(daemon.step(&Event::Packet { bytes: request(&["rm"], "/") }).is_empty());
    assert!(matches!(daemon.phase, Phase::Running { pgid: 9 }));
    assert!(forward(9, &None).is_empty());
    assert_eq!(forward(9, &Some(ClientMessage::TermSignal { signo: 2 })).len(), 1);
}

#[test]
fn a_disconnect_kills_the_group() {
    for event in [Event::Packet { bytes: vec![] }, Event::RecvFailed] {
        let mut daemon = started(Some(9));
        let actions = daemon.step(&event);
        assert!(matches!(
            &actions[..],
            [Action::Signal(GroupSignal { pgid: 9, signal: Some(SIGKILL) }), Action::AwaitExit]
        ));
        let killed = WaitStatus { code: None, signal: Some(9) };
        let actions = daemon.step(&Event::Exited { status: killed });
        assert!(matches!(&actions[..], [Action::Close(Outcome::Finished)]));
    }
}

#[test]
fn a_disconnect_ends_even_if_waiting_fails() {
    let mut daemon = started(None);
    let actions = daemon.step(&Event::RecvFailed);
    assert!(matches!(&actions[..], [Action::AwaitExit]));
    let actions = daemon.step(&Event::Broken);
    assert!(matches!(&actions[..], [Action::Close(Outcome::Finished)]));
}

#[test]
fn the_group_is_killed_before_the_exit_is_sent() {
    let mut daemon = started(Some(9));
    let actions = daemon.step(&Event::Exited { status: WaitStatus { code: Some(3), signal: None } });
    match &actions[..] {
        [Action::Signal(GroupSignal { pgid: 9, signal: Some(SIGKILL) }), Action::SendExit(bytes), Action::Close(Outcome::Finished)] => {
            assert_eq!(*bytes, encode(&ServerMessage::Exit { code: 3 }).unwrap());
        }
        other => panic!("{other:?}"),
    }
}

#[test]
fn a_setup_error_is_waited_out() {
    let mut daemon = Connection::new();
    daemon.step(&Event::Request { bytes: request(&["x"], ""), fds: 3 });
    daemon.step(&Event::VerdictSent);
    daemon.step(&Event::Spawned { pid: Some(9) });
    let actions = daemon.step(&Event::StatusRead { data: b"chdir".to_vec() });
    assert!(matches!(&actions[..], [Action::AwaitExit]));
    let actions = daemon.step(&Event::Exited { status: WaitStatus { code: Some(125), signal: None } });
    match &actions[..] {
        [Action::SendExit(bytes), Action::Close(Outcome::Finished)] => {
            assert_eq!(*bytes, report_exit(125));
        }
        other => panic!("{other:?}"),
    }
}

#[test]
fn a_failed_spawn_is_reported_by_the_protocol() {
    let mut daemon = Connection::new();
    daemon.step(&Event::Request { bytes: request(&["x"], ""), fds: 3 });
    daemon.step(&Event::VerdictSent);
    let actions = daemon.step(&Event::SpawnFailed);
    match &actions[..] {
        [Action::SendExit(bytes), Action::Close(Outcome::NotSpawned)] => {
            assert_eq!(*bytes, report_exit(127));
        }
        other => panic!("{other:?}"),
    }
}

#[test]
fn anything_broken_closes_the_connection() {
    let mut daemon = Connection::new();
    let actions = daemon.step(&Event::Broken);
    assert!(matches!(&actions[..], [Action::Close(Outcome::Broken)]));
    let mut daemon = started(Some(9));
    let actions = daemon.step(&Event::Broken);
    assert!(matches!(&actions[..], [Action::Close(Outcome::Broken)]));
    assert!(daemon.step(&Event::RecvFailed).is_empty());
}

#[test]
fn events_out_of_turn_change_nothing() {
    let mut daemon = Connection::new();
    assert!(daemon.step(&Event::VerdictSent).is_empty());
    assert!(matches!(daemon.phase, Phase::AwaitRequest));
}
