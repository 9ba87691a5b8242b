use agent_shell_tools::sandbox::{
    bind_mount, exposes_home, get_host_layout_mounts, host_entry, refusal_message, refused_mount,
    usr_layout_dirs, Cli, Host, HostEntry, MountPt,
};

fn path(s: &str) -> Option<Vec<u8>> {
    Some(s.as_bytes().to_vec())
}

fn cli() -> Cli {
    Cli {
        home: None,
        log_file: None,
        rw_mounts: vec![],
        ro_mounts: vec![],
        command: vec!["sh".into(), "-c".into(), "true".into()],
    }
}

fn missing() -> Vec<HostEntry> {
    vec![
        HostEntry::Missing,
        HostEntry::Missing,
        HostEntry::Missing,
        HostEntry::Missing,
        HostEntry::Missing,
    ]
}

fn host() -> Host {
    Host {
        home: "/home/dev".into(),
        canonical_home: path("/home/dev"),
        canonical_mounts: vec![],
        entries: missing(),
        resolver: false,
    }
}

fn bind(src: &str, rw: bool) -> MountPt {
    MountPt {
        src: Some(src.into()),
        dst: src.into(),
        fstype: None,
        options: None,
        is_bind: Some(true),
        rw: Some(rw),
        mandatory: Some(true),
        is_symlink: None,
    }
}

#[test]
fn home_and_its_ancestors_are_exposed() {
    let home = path("/home/dev");
    assert!(exposes_home(&path("/home/dev"), &home));
    assert!(exposes_home(&path("/home"), &home));
    assert!(exposes_home(&path("/"), &home));
    assert!(!exposes_home(&path("/home/dev/proj"), &home));
    assert!(!exposes_home(&path("/home/de"), &home));
    assert!(!exposes_home(&path("/home/developer"), &home));
}

#[test]
fn what_cannot_be_resolved_exposes_nothing() {
    assert!(!exposes_home(&None, &path("/home/dev")));
    assert!(!exposes_home(&path("/"), &None));
    assert!(!exposes_home(&None, &None));
}

#[test]
fn the_first_exposing_mount_is_refused() {
    let mounts = vec![path("/srv"), None, path("/home"), path("/")];
    assert_eq!(refused_mount(&mounts, &path("/home/dev")), Some(2));
    assert_eq!(refused_mount(&mounts, &path("/opt/dev")), Some(3));
    assert_eq!(refused_mount(&mounts[..2].to_vec(), &path("/home/dev")), None);
    assert_eq!(
        refusal_message("/home", "/home/dev"),
        "error: refusing to mount '/home': would expose $HOME (/home/dev)",
    );
}

#[test]
fn layout_directories_are_listed() {
    assert_eq!(usr_layout_dirs(), vec!["/bin", "/sbin", "/lib", "/lib32", "/lib64"]);
}

#[test]
fn a_link_comes_before_a_directory() {
    let link = || Some("usr/bin".to_string());
    assert_eq!(host_entry(link(), true), HostEntry::Symlink("usr/bin".into()));
    assert_eq!(host_entry(link(), false), HostEntry::Symlink("usr/bin".into()));
    assert_eq!(host_entry(None, true), HostEntry::Directory);
    assert_eq!(host_entry(None, false), HostEntry::Missing);
}

#[test]
fn merged_usr_is_mirrored_by_links() {
    let mut entries = missing();
    entries[0] = HostEntry::Symlink("usr/bin".into());
    entries[4] = HostEntry::Symlink("usr/lib64".into());
    let mounts = get_host_layout_mounts(&entries, false);
    let link = |src: &str, dst: &str| MountPt {
        src: Some(src.into()),
        dst: dst.into(),
        fstype: None,
        options: None,
        is_bind: None,
        rw: None,
        mandatory: Some(true),
        is_symlink: Some(true),
    };
    assert_eq!(mounts, vec![link("usr/bin", "/bin"), link("usr/lib64", "/lib64")]);
}

#[test]
fn real_directories_are_bound_read_only() {
    let mut entries = missing();
    entries[1] = HostEntry::Directory;
    entries[2] = HostEntry::Directory;
    let mounts = get_host_layout_mounts(&entries, true);
    assert_eq!(
        mounts,
        vec![bind("/sbin", false), bind("/lib", false), bind("/run/systemd/resolve", false)],
    );
    assert!(mounts.iter().all(|m| m.rw != Some(true)));
}

#[test]
fn bind_mounts_keep_the_path() {
    assert_eq!(bind_mount("/srv/x", true), bind("/srv/x", true));
    assert_eq!(bind_mount("/srv/x", false), bind("/srv/x", false));
}

#[test]
fn an_ephemeral_home_is_a_tmpfs() {
    let plan = cli().run(&host()).unwrap();
    assert_eq!(plan.mount.len(), 1);
    let home = &plan.mount[0];
    assert_eq!(home.src, None);
    assert_eq!(home.dst, "/home/dev");
    assert_eq!(home.fstype.as_deref(), Some("tmpfs"));
    assert_eq!(home.options.as_deref(), Some("size=8589934592"));
    assert_eq!(home.rw, Some(true));
    assert_eq!(home.mandatory, Some(true));
    assert_eq!(home.is_bind, None);
    assert_eq!(plan.cwd, "/home/dev");
    assert_eq!(plan.log_file, None);
}

#[test]
fn a_persistent_home_is_bound_at_home() {
    let mut request = cli();
    request.home = Some("/var/state/home".into());
    request.log_file = Some("/var/state/log".into());
    request.rw_mounts = vec!["/ws".into()];
    request.ro_mounts = vec!["/opt/tool".into()];
    let mut seen = host();
    seen.entries[0] = HostEntry::Directory;
    seen.canonical_mounts = vec![path("/ws"), path("/opt/tool")];
    let plan = request.run(&seen).unwrap();
    let mut home = bind("/var/state/home", true);
    home.dst = "/home/dev".into();
    assert_eq!(
        plan.mount,
        vec![bind("/bin", false), home, bind("/ws", true), bind("/opt/tool", false)],
    );
    assert_eq!(plan.log_file.as_deref(), Some("/var/state/log"));
    let writable: Vec<&str> = plan
        .mount
        .iter()
        .filter(|m| m.rw == Some(true))
        .map(|m| m.dst.as_str())
        .collect();
    assert_eq!(writable, vec!["/home/dev", "/ws"]);
}

#[test]
fn the_command_is_split() {
    let plan = cli().run(&host()).unwrap();
    assert_eq!(plan.exec_bin.path, "sh");
    assert_eq!(plan.exec_bin.arg0.as_deref(), Some("sh"));
    assert_eq!(plan.exec_bin.arg, vec!["-c".to_string(), "true".to_string()]);
    assert_eq!(plan.exec_bin.exec_fd, None);
}

#[test]
fn mounts_of_home_are_refused() {
    let mut request = cli();
    request.rw_mounts = vec!["/ws".into()];
    request.ro_mounts = vec!["/home".into()];
    let mut seen = host();
    seen.canonical_mounts = vec![path("/ws"), path("/home")];
    assert_eq!(request.run(&seen).unwrap_err(), 1);
}
