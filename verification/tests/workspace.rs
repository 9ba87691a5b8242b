use agent_shell_tools::workspace::{
    check_stale, cleanup, data_home, digest_id, has_short_quotes, recorded_path, recorded_pid,
    resolve_binary_path, resolve_path, setup_layout, workspace_id, MetaError, Probe, SetupError,
    StaleError, WorkspaceMeta, EPERM, PID_NAME, RUNTIME_DIR_NAME, SOCKET_NAME, SOCKET_PATH_LIMIT,
};
use std::collections::BTreeMap;
use std::path::Path;

fn text(s: &str) -> Option<String> {
    Some(s.to_string())
}

fn lossy(path: &[u8]) -> String {
    String::from_utf8_lossy(path).into_owned()
}

#[test]
fn workspace_id_deterministic() {
    let id1 = workspace_id(b"/tmp/my-workspace").unwrap();
    let id2 = workspace_id(b"/tmp/my-workspace").unwrap();
    assert_eq!(id1, id2);
}

#[test]
fn workspace_id_is_16_hex_chars() {
    let id = workspace_id(b"/tmp/test").unwrap();
    assert_eq!(id.len(), 16);
    assert!(id.chars().all(|c| c.is_ascii_hexdigit()));
}

#[test]
fn workspace_id_differs_for_different_paths() {
    let id1 = workspace_id(b"/tmp/workspace-a").unwrap();
    let id2 = workspace_id(b"/tmp/workspace-b").unwrap();
    assert_ne!(id1, id2);
}

#[test]
fn workspace_id_is_exact() {
    // sha256sum of the path, cut to sixteen digits.
    assert_eq!(workspace_id(b"/tmp/test").unwrap(), "0872effe487c8eb8");
    assert_eq!(workspace_id(b"/tmp/my-workspace").unwrap(), "9a543f6b3cc165c6");
}

#[test]
fn digest_id_takes_the_first_eight_bytes() {
    let digest: Vec<u8> = (0u8..32).map(|i| i * 8 + 7).collect();
    assert_eq!(digest_id(&digest), "070f171f272f373f");
    assert_eq!(digest_id(&[0xff, 0, 0xa5, 0x5a, 9, 0x90, 0x0c, 0xc0]), "ff00a55a09900cc0");
}

#[test]
fn workspace_id_needs_utf8() {
    let err = workspace_id(b"/tmp/\xff").unwrap_err();
    assert!(matches!(err, SetupError::WorkspaceNotUtf8 { .. }));
    assert_eq!(err.message(), "workspace path is not valid UTF-8: /tmp/\u{fffd}");
}

#[test]
fn setup_layout_rejects_long_socket_path() {
    let long_name = "a".repeat(100);
    let workspace = format!("/tmp/wsb-test-long-path/{long_name}");
    let err = setup_layout(workspace.as_bytes(), &text("/tmp/data"), &None).unwrap_err();
    assert!(err.message().contains("exceeds Unix limit of 107"));
    let socket = format!("{workspace}/.agent-shell-tools/grpc_exec.sock");
    assert_eq!(
        err.message(),
        format!("socket path is {} bytes, exceeds Unix limit of 107: {socket}", socket.len()),
    );
}

#[test]
fn socket_paths_fit_up_to_the_limit() {
    // "/" + name + "/.agent-shell-tools/grpc_exec.sock"
    let tail = 1 + RUNTIME_DIR_NAME.len() + 1 + SOCKET_NAME.len();
    let fits = format!("/{}", "b".repeat(SOCKET_PATH_LIMIT - tail - 1));
    let layout = setup_layout(fits.as_bytes(), &text("/d"), &None).unwrap();
    assert_eq!(layout.socket_path.len(), 107);
    let too_long = format!("{fits}b");
    assert!(matches!(
        setup_layout(too_long.as_bytes(), &text("/d"), &None),
        Err(SetupError::SocketPathTooLong { .. })
    ));
}

#[test]
fn setup_layout_creates_workspace_toml() {
    let layout = setup_layout(b"/tmp/wsb-test-meta/ws", &text("/tmp/wsb-test-meta/data"), &None)
        .unwrap();
    let id = workspace_id(b"/tmp/wsb-test-meta/ws").unwrap();
    let data_dir = format!("/tmp/wsb-test-meta/data/agent-shell-tools/{id}");
    assert_eq!(lossy(&layout.data_dir), data_dir);
    assert_eq!(lossy(&layout.metadata_path()), format!("{data_dir}/workspace.toml"));
    assert_eq!(lossy(&layout.home_dir), format!("{data_dir}/home"));
    assert_eq!(lossy(&layout.log_path), format!("{data_dir}/sandbox.log"));

    let contents = layout.metadata().to_toml();
    let meta = WorkspaceMeta::from_toml(&contents).unwrap();
    assert_eq!(meta.path, "/tmp/wsb-test-meta/ws");
    let entries: BTreeMap<String, String> = toml::from_str(&contents).unwrap();
    assert_eq!(entries.len(), 1);
    assert_eq!(entries["path"], "/tmp/wsb-test-meta/ws");

    // data_dir should be under our XDG_DATA_HOME.
    let data_dir = lossy(&layout.data_dir);
    assert!(Path::new(&data_dir).starts_with("/tmp/wsb-test-meta/data"));
}

#[test]
fn metadata_text_is_exact() {
    let layout = setup_layout(b"/home/dev/proj", &text("/d"), &None).unwrap();
    assert_eq!(layout.metadata().to_toml(), "path = \"/home/dev/proj\"\n");
}

#[test]
fn metadata_reads_back() {
    let long = "'".repeat(255) + "x" + &"\"".repeat(255);
    let paths = [
        "", "/", "/a b", "/a\"b", "/a'b", "/a\"'b", "/a\\b", "/a\\'b", "\n", "\n\n", "/a\nb", "/a\r\nb",
        "/\r", "\t", "/a\tb\"'", "\"", "\"\"", "\"\"\"", "'", "''", "'''", "'\"", "\"'\"", "''\\", "\\''",
        "\\\n", "\\\n ", "a\\ \n b", "\u{0}", "\u{1b}[0m", "\u{7f}", "\u{8}\u{c}", "\u{85}", "\u{feff}",
        "/größe/\u{1f600}", "#", "= [x]", "a\"\"\"b\nc'''d\\e", "x\n\"\"", "x\n\"", "'\n'\\'", "''\n''\\''",
        long.as_str(),
    ];
    for path in paths {
        let meta = WorkspaceMeta { path: path.to_string() };
        assert!(has_short_quotes(path.as_bytes()));
        let read = WorkspaceMeta::from_toml(&meta.to_toml());
        assert_eq!(read.unwrap().path, path, "{path:?}");
    }
}

#[test]
fn metadata_without_a_path_is_refused() {
    assert!(matches!(WorkspaceMeta::from_toml("path ="), Err(MetaError::Syntax(_))));
    assert!(matches!(WorkspaceMeta::from_toml(""), Err(MetaError::NoPath)));
    assert!(matches!(WorkspaceMeta::from_toml("other = 'x'"), Err(MetaError::NoPath)));
    assert!(matches!(WorkspaceMeta::from_toml("path = 7"), Err(MetaError::PathNotText)));
    let meta = WorkspaceMeta::from_toml("name = 3\npath = '/w'\n[more]\npath = 1\n").unwrap();
    assert_eq!(meta.path, "/w");
}

#[test]
fn the_first_path_is_the_one_recorded() {
    let entry = |key: &str, value: Option<&str>| (key.to_string(), value.map(String::from));
    assert!(matches!(recorded_path(vec![]), Err(MetaError::NoPath)));
    let entries = vec![entry("a", None), entry("path", Some("/1")), entry("path", Some("/2"))];
    assert_eq!(recorded_path(entries).unwrap().path, "/1");
    let entries = vec![entry("path", None), entry("path", Some("/2"))];
    assert!(matches!(recorded_path(entries), Err(MetaError::PathNotText)));
}

#[test]
fn quotes_are_counted() {
    assert!(has_short_quotes(b""));
    for quote in ["'", "\""] {
        assert!(has_short_quotes(quote.repeat(255).as_bytes()));
        assert!(!has_short_quotes(quote.repeat(256).as_bytes()));
        let apart = quote.repeat(255) + "/" + &quote.repeat(255);
        assert!(has_short_quotes(apart.as_bytes()));
        let late = String::from("/ab'\"") + &quote.repeat(300) + "c";
        assert!(!has_short_quotes(late.as_bytes()));
    }
    assert!(has_short_quotes("'\"".repeat(400).as_bytes()));
    assert!(has_short_quotes("a".repeat(400).as_bytes()));
}

#[test]
fn runtime_files_lie_in_the_workspace() {
    let layout = setup_layout(b"/ws", &None, &text("/home/u")).unwrap();
    assert_eq!(lossy(&layout.workspace), "/ws");
    assert_eq!(lossy(&layout.runtime_dir), "/ws/.agent-shell-tools");
    assert_eq!(lossy(&layout.socket_path), "/ws/.agent-shell-tools/grpc_exec.sock");
    assert_eq!(lossy(&layout.pid_path), "/ws/.agent-shell-tools/launcher.pid");
    assert!(lossy(&layout.data_dir).starts_with("/home/u/.local/share/agent-shell-tools/"));
}

#[test]
fn setup_errors_come_in_order() {
    // No ID comes before no data home, which comes before a long socket path.
    assert!(matches!(
        setup_layout(b"/\xff", &None, &None),
        Err(SetupError::WorkspaceNotUtf8 { .. })
    ));
    let long = format!("/{}", "c".repeat(200));
    let err = setup_layout(long.as_bytes(), &None, &None).unwrap_err();
    assert!(matches!(err, SetupError::NoDataHome));
    assert_eq!(err.message(), "neither XDG_DATA_HOME nor HOME is set");
}

#[test]
fn data_home_respects_xdg() {
    assert_eq!(data_home(&text("/custom/data"), &None).unwrap(), b"/custom/data");
    assert_eq!(data_home(&text("/custom/data"), &text("/home/u")).unwrap(), b"/custom/data");
}

#[test]
fn data_home_falls_back_to_home() {
    assert_eq!(data_home(&None, &text("/home/u")).unwrap(), b"/home/u/.local/share");
}

#[test]
fn data_home_needs_one_of_both() {
    assert!(matches!(data_home(&None, &None), Err(SetupError::NoDataHome)));
}

#[test]
fn relative_paths_are_seen_from_the_users_directory() {
    assert_eq!(resolve_path(b"ws", &text("/home/u")), b"/home/u/ws");
    assert_eq!(resolve_path(b"ws", &text("/home/u/")), b"/home/u/ws");
    assert_eq!(resolve_path(b"/abs", &text("/home/u")), b"/abs");
    assert_eq!(resolve_path(b"ws", &None), b"ws");
    assert_eq!(resolve_path(b"", &text("/home/u")), b"/home/u/");
    assert_eq!(resolve_binary_path(b"bin/sandbox", &text("/home/u")), b"/home/u/bin/sandbox");
}

#[test]
fn check_stale_cleans_dead_pid() {
    // No such process.
    let dead = Probe { ret: -1, errno: libc::ESRCH };
    let files = check_stale(b"/run/x", &text("4194303"), &Some(dead)).unwrap();
    assert_eq!(files, vec![b"/run/x/launcher.pid".to_vec(), b"/run/x/grpc_exec.sock".to_vec()]);
}

#[test]
fn check_stale_rejects_live_pid() {
    let live = Probe { ret: 0, errno: 0 };
    let err = check_stale(b"/run/x", &text("1234"), &Some(live)).unwrap_err();
    assert!(err.message().contains("already running"));
    assert_eq!(
        err.message(),
        "another instance (pid 1234) is already running for this workspace",
    );
}

#[test]
fn check_stale_no_pid_file() {
    let files = check_stale(b"/run/x", &None, &None).unwrap();
    assert_eq!(files, vec![b"/run/x/grpc_exec.sock".to_vec()]);
}

#[test]
fn another_users_session_counts_as_live() {
    assert_eq!(EPERM, libc::EPERM);
    let foreign = Probe { ret: -1, errno: EPERM };
    let err = check_stale(b"/run/x", &text(" 77\n"), &Some(foreign)).unwrap_err();
    assert!(matches!(err, StaleError::RunningElsewhere { pid: 77 }));
    assert_eq!(
        err.message(),
        "another instance (pid 77) is running for this workspace (owned by another user)",
    );
}

#[test]
fn an_unreadable_number_is_stale() {
    assert_eq!(recorded_pid(&text("not a pid")), None);
    let files = check_stale(b"/run/x", &text("not a pid"), &None).unwrap();
    assert_eq!(files.len(), 2);
}

#[test]
fn pids_are_read_as_std_reads_them() {
    let cases = [
        "1", " 1 ", "+1", "-1", "", "+", "-", "0", "-0", "007", "2147483647", "2147483648",
        "-2147483648", "-2147483649", "99999999999999999999", "1 2", "1a", "\u{a0}5\u{2003}",
        "\u{663}", "--1", "1\n", "\t\r\n12\u{b}\u{c}",
    ];
    for case in cases {
        assert_eq!(recorded_pid(&text(case)), case.trim().parse::<i32>().ok(), "{case:?}");
    }
    assert_eq!(recorded_pid(&None), None);
}

#[test]
fn cleanup_removes_socket_and_pid_file() {
    let layout = setup_layout(b"/ws", &text("/d"), &None).unwrap();
    let files = cleanup(&layout);
    assert_eq!(files, vec![layout.socket_path.clone(), layout.pid_path.clone()]);
    // The next start would find these two left behind.
    let dead = Probe { ret: -1, errno: libc::ESRCH };
    let mut stale = check_stale(&layout.runtime_dir, &text("1"), &Some(dead)).unwrap();
    stale.reverse();
    assert_eq!(stale, files);
    assert!(files[1].ends_with(PID_NAME.as_bytes()));
}
