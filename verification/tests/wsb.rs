use agent_shell_tools::launch::{
    sandbox_command, wait_for_socket, Environment, Launch, LaunchAction, LaunchEvent,
    LaunchFailure, LaunchPhase, SocketLook, SocketStage, SocketStep, StartArgs,
    SOCKET_TIMEOUT_NANOS,
};
use agent_shell_tools::search::{
    entry_kind, find_binary, not_found_message, runfiles_dir, split_paths, Answer, BinarySearch, DirEntry,
    EntryKind, Query,
};
use agent_shell_tools::workspace::{setup_layout, Layout, Probe};
use std::collections::BTreeMap;

fn bytes(s: &str) -> Vec<u8> {
    s.as_bytes().to_vec()
}

fn lossy(path: &[u8]) -> String {
    String::from_utf8_lossy(path).into_owned()
}

// Searching

fn entry(name: &str, kind: EntryKind) -> DirEntry {
    DirEntry { name: bytes(name), kind }
}

/// A filesystem: files, and directories with what they list.
struct Tree {
    files: Vec<&'static str>,
    dirs: BTreeMap<&'static str, Vec<(&'static str, EntryKind)>>,
}

/// Runs a search to its end; returns the result and the questions.
fn search(mut search: BinarySearch, tree: &Tree) -> (Option<String>, Vec<String>) {
    let mut asked: Vec<String> = Vec::new();
    loop {
        match search.query() {
            Query::IsFile(path) => {
                let path = lossy(&path);
                asked.push(format!("file {path}"));
                let found = tree.files.contains(&path.as_str());
                search.answer(if found { Answer::Yes } else { Answer::No });
            }
            Query::IsDir(path) => {
                let path = lossy(&path);
                asked.push(format!("dir {path}"));
                let found = tree.dirs.contains_key(path.as_str());
                search.answer(if found { Answer::Yes } else { Answer::No });
            }
            Query::List(path) => {
                let path = lossy(&path);
                asked.push(format!("list {path}"));
                let listing = tree.dirs.get(path.as_str());
                search.answer(Answer::Listing(
                    listing.map(|entries| entries.iter().map(|(n, k)| entry(n, *k)).collect()),
                ));
            }
            Query::Found(path) => return (Some(lossy(&path)), asked),
            Query::NotFound => return (None, asked),
        }
    }
}

fn tree(files: &[&'static str]) -> Tree {
    Tree { files: files.to_vec(), dirs: BTreeMap::new() }
}

fn look_for(name: &str, exe: Option<&str>, path: Option<&str>) -> BinarySearch {
    find_binary(name.as_bytes(), &exe.map(bytes), &path.map(bytes))
}

#[test]
fn a_sibling_comes_first() {
    let fs = tree(&["/dist/sandbox", "/usr/bin/sandbox"]);
    let (found, asked) = search(look_for("sandbox", Some("/dist/wsb"), Some("/usr/bin")), &fs);
    assert_eq!(found.as_deref(), Some("/dist/sandbox"));
    assert_eq!(asked, vec!["file /dist/sandbox"]);
}

#[test]
fn runfiles_come_before_path() {
    let mut fs = tree(&["/usr/bin/sandbox"]);
    fs.dirs.insert("/b/wsb.runfiles", vec![("_main", EntryKind::Directory)]);
    fs.dirs.insert("/b/wsb.runfiles/_main", vec![("sandbox", EntryKind::File)]);
    let (found, asked) = search(look_for("sandbox", Some("/b/wsb"), Some("/usr/bin")), &fs);
    assert_eq!(found.as_deref(), Some("/b/wsb.runfiles/_main/sandbox"));
    assert_eq!(
        asked,
        vec![
            "file /b/sandbox",
            "dir /b/wsb.runfiles",
            "list /b/wsb.runfiles",
            "list /b/wsb.runfiles/_main",
        ],
    );
}

#[test]
fn a_tree_is_walked_in_depth_first_order() {
    let mut fs = tree(&[]);
    fs.dirs.insert(
        "/b/wsb.runfiles",
        vec![
            ("a", EntryKind::Directory),
            ("tool", EntryKind::Other),
            ("b", EntryKind::Directory),
            ("tool", EntryKind::File),
        ],
    );
    fs.dirs.insert(
        "/b/wsb.runfiles/a",
        vec![("other", EntryKind::File), ("deep", EntryKind::Directory)],
    );
    fs.dirs.insert("/b/wsb.runfiles/b", vec![("tool", EntryKind::File)]);
    // a/deep cannot be listed.
    let (found, asked) = search(look_for("tool", Some("/b/wsb"), None), &fs);
    assert_eq!(found.as_deref(), Some("/b/wsb.runfiles/b/tool"));
    assert_eq!(
        asked[2..],
        [
            "list /b/wsb.runfiles",
            "list /b/wsb.runfiles/a",
            "list /b/wsb.runfiles/a/deep",
            "list /b/wsb.runfiles/b",
        ],
    );
}

#[test]
fn a_directory_of_that_name_is_no_match() {
    let mut fs = tree(&["/usr/bin/tool"]);
    fs.dirs.insert("/b/wsb.runfiles", vec![("tool", EntryKind::Directory)]);
    fs.dirs.insert("/b/wsb.runfiles/tool", vec![]);
    let (found, _) = search(look_for("tool", Some("/b/wsb"), Some("/bin:/usr/bin")), &fs);
    assert_eq!(found.as_deref(), Some("/usr/bin/tool"));
}

#[test]
fn path_directories_are_tried_in_order() {
    let fs = tree(&["/c/tool", "/b/tool"]);
    let (found, asked) = search(look_for("tool", None, Some("/a:/b:/c")), &fs);
    assert_eq!(found.as_deref(), Some("/b/tool"));
    assert_eq!(asked, vec!["file /a/tool", "file /b/tool"]);
}

#[test]
fn a_missing_program_is_not_found() {
    let (found, asked) = search(look_for("tool", Some("/b/wsb"), Some("/a")), &tree(&[]));
    assert_eq!(found, None);
    assert_eq!(asked, vec!["file /b/tool", "dir /b/wsb.runfiles", "file /a/tool"]);
    let (found, asked) = search(look_for("tool", None, None), &tree(&[]));
    assert_eq!(found, None);
    assert!(asked.is_empty());
    assert_eq!(not_found_message("tool"), "'tool' not found alongside wsb or in PATH");
}

#[test]
fn a_launcher_at_the_root_has_no_sibling() {
    let (_, asked) = search(look_for("tool", Some("/"), None), &tree(&[]));
    assert_eq!(asked, vec!["dir /.runfiles"]);
}

#[test]
fn answers_that_do_not_fit_are_not_taken() {
    let mut search = look_for("tool", None, Some("/a"));
    search.answer(Answer::Listing(None));
    assert_eq!(search.query(), Query::IsFile(bytes("/a/tool")));
}

#[test]
fn search_paths_are_split_at_colons() {
    let split = |s: &str| -> Vec<String> {
        split_paths(s.as_bytes()).iter().map(|p| lossy(p)).collect()
    };
    assert_eq!(split("/a:/b"), vec!["/a", "/b"]);
    assert_eq!(split(""), vec![""]);
    assert_eq!(split(":/a::"), vec!["", "/a", "", ""]);
}

#[test]
fn a_file_comes_before_a_directory() {
    assert_eq!(entry_kind(true, false), EntryKind::File);
    assert_eq!(entry_kind(true, true), EntryKind::File);
    assert_eq!(entry_kind(false, true), EntryKind::Directory);
    assert_eq!(entry_kind(false, false), EntryKind::Other);
}

#[test]
fn runfiles_lie_next_to_the_program() {
    assert_eq!(runfiles_dir(b"/b/wsb"), b"/b/wsb.runfiles");
    assert_eq!(runfiles_dir(b"/b/\xff"), "/b/\u{fffd}.runfiles".as_bytes());
}

// Launching

fn args(sandbox: Option<&str>, execd: Option<&str>) -> StartArgs {
    StartArgs {
        workspace: bytes("ws"),
        sandbox_bin: sandbox.map(bytes),
        grpc_execd_bin: execd.map(bytes),
    }
}

fn environment() -> Environment {
    Environment {
        build_dir: Some("/home/u".into()),
        xdg_data_home: Some("/data".into()),
        home: None,
        path: Some(bytes("/usr/bin")),
        exe: None,
    }
}

fn layout() -> Layout {
    setup_layout(b"/home/u/ws", &Some("/data".into()), &None).unwrap()
}

/// A launch that has come as far as reading the PID file.
fn laid_out(args: StartArgs) -> Launch {
    let expected = layout();
    let (mut launch, actions) = args.run(environment());
    assert!(matches!(&actions[..], [LaunchAction::Canonicalize(p)] if p == b"/home/u/ws"));
    let actions = launch.step(LaunchEvent::Canonical(Some(bytes("/home/u/ws"))));
    assert!(matches!(&actions[..], [LaunchAction::IsDir(p)] if p == b"/home/u/ws"));
    let actions = launch.step(LaunchEvent::Yes);
    assert!(matches!(&actions[..], [LaunchAction::MakeDir(p)] if *p == expected.home_dir));
    let actions = launch.step(LaunchEvent::Done);
    assert!(matches!(&actions[..], [LaunchAction::MakeDir(p)] if *p == expected.runtime_dir));
    let actions = launch.step(LaunchEvent::Done);
    match &actions[..] {
        [LaunchAction::Write { path, text }] => {
            assert_eq!(*path, expected.metadata_path());
            assert_eq!(text, "path = \"/home/u/ws\"\n");
        }
        other => panic!("{other:?}"),
    }
    let actions = launch.step(LaunchEvent::Done);
    assert!(matches!(&actions[..], [LaunchAction::Read(p)] if *p == expected.pid_path));
    launch
}

/// A launch that is about to claim the workspace.
fn claiming(args: StartArgs) -> Launch {
    let mut launch = laid_out(args);
    let actions = launch.step(LaunchEvent::Contents(None));
    match &actions[..] {
        [LaunchAction::Remove(files), LaunchAction::Claim(path)] => {
            assert_eq!(*files, vec![layout().socket_path]);
            assert_eq!(*path, layout().pid_path);
        }
        other => panic!("{other:?}"),
    }
    launch
}

/// A launch whose sandbox has been spawned.
fn spawned() -> Launch {
    let mut launch = claiming(args(Some("bin/sandbox"), Some("/opt/g/grpc_execd")));
    let actions = launch.step(LaunchEvent::Done);
    assert!(matches!(&actions[..], [LaunchAction::Canonicalize(p)] if p == b"/opt/g/grpc_execd"));
    let actions = launch.step(LaunchEvent::Canonical(Some(bytes("/opt/g/grpc_execd"))));
    match &actions[..] {
        [LaunchAction::Spawn(command)] => {
            assert_eq!(lossy(&command.program), "/home/u/bin/sandbox");
        }
        other => panic!("{other:?}"),
    }
    let actions = launch.step(LaunchEvent::Spawned(4321));
    match &actions[..] {
        [LaunchAction::Write { path, text }] => {
            assert_eq!(*path, layout().pid_path);
            assert_eq!(text, "4321");
        }
        other => panic!("{other:?}"),
    }
    launch
}

/// A launch that waits for the socket.
fn awaiting_socket() -> Launch {
    let mut launch = spawned();
    let actions = launch.step(LaunchEvent::Done);
    assert!(matches!(&actions[..], [LaunchAction::FindSocket(p)] if *p == layout().socket_path));
    launch
}

fn artifacts() -> Vec<Vec<u8>> {
    vec![layout().socket_path, layout().pid_path]
}

/// Checks that a launch failed, without cleaning up.
fn failed_early(actions: &[LaunchAction]) -> String {
    match actions {
        [LaunchAction::Fail(failure)] => failure.message(),
        other => panic!("{other:?}"),
    }
}

/// Checks that a launch failed, after cleaning up.
fn failed_claimed(actions: &[LaunchAction]) -> String {
    match actions {
        [LaunchAction::Remove(files), LaunchAction::Fail(failure)] => {
            assert_eq!(*files, artifacts());
            failure.message()
        }
        other => panic!("{other:?}"),
    }
}

/// Checks that a launch failed, after ending the sandbox and cleaning up.
fn failed_running(actions: &[LaunchAction]) -> String {
    match actions {
        [LaunchAction::Kill, LaunchAction::Reap, LaunchAction::Remove(files), LaunchAction::Fail(failure)] => {
            assert_eq!(*files, artifacts());
            failure.message()
        }
        other => panic!("{other:?}"),
    }
}

#[test]
fn start_rejects_nonexistent_workspace() {
    let (mut launch, _) = args(None, None).run(environment());
    let actions = launch.step(LaunchEvent::Canonical(None));
    assert_eq!(actions[0].exit_code(), Some(1));
    assert_eq!(failed_early(&actions), "resolving 'ws'");
    assert!(matches!(launch.phase, LaunchPhase::Over));
}

#[test]
fn start_rejects_files() {
    let (mut launch, _) = args(None, None).run(environment());
    launch.step(LaunchEvent::Canonical(Some(bytes("/home/u/ws"))));
    assert_eq!(failed_early(&launch.step(LaunchEvent::No)), "'/home/u/ws' is not a directory");
}

#[test]
fn start_needs_a_layout() {
    let mut env = environment();
    env.xdg_data_home = None;
    let (mut launch, _) = args(None, None).run(env);
    launch.step(LaunchEvent::Canonical(Some(bytes("/home/u/ws"))));
    assert_eq!(
        failed_early(&launch.step(LaunchEvent::Yes)),
        "neither XDG_DATA_HOME nor HOME is set",
    );
}

#[test]
fn failures_to_write_end_the_launch() {
    let at = |steps: usize| {
        let (mut launch, _) = args(None, None).run(environment());
        launch.step(LaunchEvent::Canonical(Some(bytes("/home/u/ws"))));
        launch.step(LaunchEvent::Yes);
        for _ in 0..steps {
            launch.step(LaunchEvent::Done);
        }
        failed_early(&launch.step(LaunchEvent::Failed))
    };
    let layout = layout();
    assert_eq!(at(0), format!("creating state directory '{}'", lossy(&layout.home_dir)));
    assert_eq!(at(1), format!("creating runtime directory '{}'", lossy(&layout.runtime_dir)));
    assert_eq!(at(2), format!("writing '{}'", lossy(&layout.metadata_path())));
}

#[test]
fn a_live_session_is_left_alone() {
    let mut launch = laid_out(args(None, None));
    let actions = launch.step(LaunchEvent::Contents(Some("99\n".into())));
    assert!(matches!(&actions[..], [LaunchAction::Probe(99)]));
    let actions = launch.step(LaunchEvent::Probed(Probe { ret: 0, errno: 0 }));
    assert_eq!(
        failed_early(&actions),
        "another instance (pid 99) is already running for this workspace",
    );
}

#[test]
fn a_dead_session_is_cleaned_up() {
    let mut launch = laid_out(args(None, None));
    launch.step(LaunchEvent::Contents(Some("99".into())));
    let actions = launch.step(LaunchEvent::Probed(Probe { ret: -1, errno: libc::ESRCH }));
    match &actions[..] {
        [LaunchAction::Remove(files), LaunchAction::Claim(path)] => {
            assert_eq!(*files, vec![layout().pid_path, layout().socket_path]);
            assert_eq!(*path, layout().pid_path);
        }
        other => panic!("{other:?}"),
    }
}

#[test]
fn a_lost_race_removes_nothing() {
    let mut launch = claiming(args(None, None));
    assert_eq!(
        failed_early(&launch.step(LaunchEvent::Failed)),
        "claiming workspace (PID file already exists — concurrent launch?)",
    );
}

#[test]
fn programs_are_searched_for() {
    let mut launch = claiming(args(None, None));
    let actions = launch.step(LaunchEvent::Done);
    assert!(matches!(&actions[..], [LaunchAction::Ask(Query::IsFile(p))] if p == b"/usr/bin/sandbox"));
    let actions = launch.step(LaunchEvent::Answered(Answer::Yes));
    assert!(matches!(&actions[..], [LaunchAction::Ask(Query::IsFile(p))] if p == b"/usr/bin/grpc_execd"));
    let actions = launch.step(LaunchEvent::Answered(Answer::Yes));
    assert!(matches!(&actions[..], [LaunchAction::Canonicalize(p)] if p == b"/usr/bin/grpc_execd"));
}

#[test]
fn missing_programs_end_the_launch() {
    let mut launch = claiming(args(None, None));
    launch.step(LaunchEvent::Done);
    assert_eq!(
        failed_claimed(&launch.step(LaunchEvent::Answered(Answer::No))),
        "'sandbox' not found alongside wsb or in PATH",
    );
    let mut launch = claiming(args(Some("/s"), None));
    launch.step(LaunchEvent::Done);
    assert_eq!(
        failed_claimed(&launch.step(LaunchEvent::Answered(Answer::No))),
        "'grpc_execd' not found alongside wsb or in PATH",
    );
}

#[test]
fn grpc_execd_must_resolve() {
    let mut launch = claiming(args(Some("/s"), Some("g")));
    let actions = launch.step(LaunchEvent::Done);
    assert!(matches!(&actions[..], [LaunchAction::Canonicalize(p)] if p == b"/home/u/g"));
    assert_eq!(
        failed_claimed(&launch.step(LaunchEvent::Canonical(None))),
        "resolving grpc_execd path",
    );
    let mut launch = claiming(args(Some("/s"), Some("g")));
    launch.step(LaunchEvent::Done);
    assert_eq!(
        failed_claimed(&launch.step(LaunchEvent::Canonical(Some(bytes("/"))))),
        "grpc_execd binary has no parent directory",
    );
}

#[test]
fn the_sandbox_command_line_is_exact() {
    let layout = layout();
    let command = sandbox_command(&layout, bytes("/s/sandbox"), &bytes("/opt/g/grpc_execd")).unwrap();
    let line: Vec<String> = command.args.iter().map(|a| lossy(a)).collect();
    assert_eq!(
        line,
        vec![
            "--home".to_string(),
            lossy(&layout.home_dir),
            "--rw".to_string(),
            "/home/u/ws".to_string(),
            "--log-file".to_string(),
            lossy(&layout.log_path),
            "--ro".to_string(),
            "/opt/g".to_string(),
            "--".to_string(),
            "/opt/g/grpc_execd".to_string(),
            "-addr".to_string(),
            lossy(&layout.socket_path),
        ],
    );
    assert_eq!(lossy(&command.program), "/s/sandbox");
}

#[test]
fn a_program_in_the_workspace_needs_no_mount() {
    let layout = layout();
    let execd = bytes("/home/u/ws/bin/grpc_execd");
    let command = sandbox_command(&layout, bytes("/s"), &execd).unwrap();
    assert!(!command.args.contains(&bytes("--ro")));
    assert_eq!(command.args.len(), 10);
    assert!(sandbox_command(&layout, bytes("/s"), &bytes("/")).is_none());
}

#[test]
fn spawn_failures_clean_up() {
    let mut launch = claiming(args(Some("/s"), Some("/opt/g/e")));
    launch.step(LaunchEvent::Done);
    launch.step(LaunchEvent::Canonical(Some(bytes("/opt/g/e"))));
    assert_eq!(failed_claimed(&launch.step(LaunchEvent::Failed)), "spawning sandbox");
    assert_eq!(failed_running(&spawned().step(LaunchEvent::Failed)), "updating PID file");
}

#[test]
fn the_socket_is_polled_for() {
    let mut launch = awaiting_socket();
    let actions = launch.step(LaunchEvent::Looked(SocketLook::Absent));
    assert!(matches!(&actions[..], [LaunchAction::ReadClock]));
    let actions = launch.step(LaunchEvent::Looked(SocketLook::Elapsed(SOCKET_TIMEOUT_NANOS)));
    assert!(matches!(&actions[..], [LaunchAction::TryWait]));
    let actions = launch.step(LaunchEvent::Looked(SocketLook::Alive));
    assert!(matches!(&actions[..], [LaunchAction::Sleep(50), LaunchAction::FindSocket(_)]));
    let actions = launch.step(LaunchEvent::Looked(SocketLook::Present));
    match &actions[..] {
        [LaunchAction::Announce(line), LaunchAction::AwaitExit] => {
            assert_eq!(line, "ready: /home/u/ws/.agent-shell-tools/grpc_exec.sock");
        }
        other => panic!("{other:?}"),
    }
    let actions = launch.step(LaunchEvent::Waited(Some(Some(7))));
    assert_eq!(actions[0].exit_code(), None);
    assert_eq!(actions[1].exit_code(), Some(7));
    match &actions[..] {
        [LaunchAction::Remove(files), LaunchAction::Exit(7)] => assert_eq!(*files, artifacts()),
        other => panic!("{other:?}"),
    }
    assert!(launch.step(LaunchEvent::Done).is_empty());
}

#[test]
fn a_late_socket_ends_the_launch() {
    let mut launch = awaiting_socket();
    launch.step(LaunchEvent::Looked(SocketLook::Absent));
    let actions = launch.step(LaunchEvent::Looked(SocketLook::Elapsed(SOCKET_TIMEOUT_NANOS + 1)));
    assert_eq!(failed_running(&actions), "grpc_execd socket did not appear within 10s");
}

#[test]
fn an_early_end_of_the_sandbox_ends_the_launch() {
    let mut launch = awaiting_socket();
    launch.step(LaunchEvent::Looked(SocketLook::Absent));
    launch.step(LaunchEvent::Looked(SocketLook::Elapsed(0)));
    let actions = launch.step(LaunchEvent::Looked(SocketLook::Ended("exit status: 1".into())));
    assert_eq!(failed_claimed(&actions), "sandbox exited early with exit status: 1");
}

#[test]
fn a_look_at_something_else_is_repeated() {
    assert!(matches!(
        wait_for_socket(SocketStage::Clock, SocketLook::Present),
        SocketStep::Look(SocketStage::Clock)
    ));
    assert!(matches!(
        wait_for_socket(SocketStage::Child, SocketLook::Alive),
        SocketStep::Pause
    ));
}

#[test]
fn a_failed_wait_exits_with_one() {
    let mut launch = awaiting_socket();
    launch.step(LaunchEvent::Looked(SocketLook::Present));
    let actions = launch.step(LaunchEvent::Waited(None));
    assert!(matches!(&actions[..], [LaunchAction::Remove(_), LaunchAction::Exit(1)]));
}

#[test]
fn every_failure_has_words() {
    let shown = || "x".to_string();
    assert_eq!(LaunchFailure::Resolve { shown: shown() }.message(), "resolving 'x'");
    assert_eq!(LaunchFailure::Metadata { shown: shown() }.message(), "writing 'x'");
    assert_eq!(LaunchFailure::ResolveExecd.message(), "resolving grpc_execd path");
}
