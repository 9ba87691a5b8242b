//! What the sandbox mounts and runs.
//!
//! The agent runs with full freedom inside the sandbox but must not reach the
//! host's credentials, so nothing that holds the real home directory is
//! mounted.

use crate::path::{
    absolute, law_within_is_transitive, law_within_root, opt_path, starts_with, within, SLASH,
};
use crate::wire::texts;
use vstd::prelude::*;
use vstd::string::*;

verus! {

/// A mount point of the jail. What is `None` is left to the jail's defaults.
#[derive(Debug, PartialEq)]
pub struct MountPt {
    pub src: Option<String>,
    pub dst: String,
    pub fstype: Option<String>,
    pub options: Option<String>,
    pub is_bind: Option<bool>,
    pub rw: Option<bool>,
    pub mandatory: Option<bool>,
    pub is_symlink: Option<bool>,
}

/// What a [`MountPt`] says, with its strings as sequences of characters.
#[verifier::ext_equal]
pub struct MountView {
    pub src: Option<Seq<char>>,
    pub dst: Seq<char>,
    pub fstype: Option<Seq<char>>,
    pub options: Option<Seq<char>>,
    pub is_bind: Option<bool>,
    pub rw: Option<bool>,
    pub mandatory: Option<bool>,
    pub is_symlink: Option<bool>,
}

pub open spec fn opt_chars(s: Option<String>) -> Option<Seq<char>> {
    match s {
        Some(s) => Some(s@),
        None => None,
    }
}

impl View for MountPt {
    type V = MountView;

    open spec fn view(&self) -> MountView {
        MountView {
            src: opt_chars(self.src),
            dst: self.dst@,
            fstype: opt_chars(self.fstype),
            options: opt_chars(self.options),
            is_bind: self.is_bind,
            rw: self.rw,
            mandatory: self.mandatory,
            is_symlink: self.is_symlink,
        }
    }
}

/// A program, the name it is called by, and its arguments.
#[derive(Debug, PartialEq)]
pub struct Exe {
    pub path: String,
    pub arg0: Option<String>,
    pub arg: Vec<String>,
    pub exec_fd: Option<bool>,
}

pub open spec fn mount_views(mounts: Seq<MountPt>) -> Seq<MountView> {
    Seq::new(mounts.len(), |i: int| mounts[i]@)
}

// ---------------------------------------------------------------------------
// The host's layout
// ---------------------------------------------------------------------------

/// Directories that may be symlinks (merged-usr) or real directories.
/// The symlink targets vary by distro (e.g. Arch: /sbin -> usr/bin,
/// Debian: /sbin -> usr/sbin), so the host layout is read at runtime.
pub open spec fn usr_layout() -> Seq<Seq<char>> {
    seq!["/bin"@, "/sbin"@, "/lib"@, "/lib32"@, "/lib64"@]
}

/// The directories whose layout is taken over from the host.
pub fn usr_layout_dirs() -> (res: Vec<&'static str>)
    ensures
        res@.len() == usr_layout().len(),
        forall|i: int| 0 <= i < res@.len() ==> (#[trigger] res@[i])@ == usr_layout()[i],
{
    let mut dirs: Vec<&'static str> = Vec::new();
    dirs.push("/bin");
    dirs.push("/sbin");
    dirs.push("/lib");
    dirs.push("/lib32");
    dirs.push("/lib64");
    dirs
}

/// Where systemd-resolved keeps the socket of its stub listener.
pub const RESOLVER_DIR: &'static str = "/run/systemd/resolve";

/// What the host has at a path.
#[derive(Debug, PartialEq)]
pub enum HostEntry {
    /// A symbolic link, with its target.
    Symlink(String),
    /// A directory.
    Directory,
    /// Neither.
    Missing,
}

/// What the host has at a path, given the target of the link there, if it is
/// one, and whether there is a directory. A link counts as a link even where it
/// leads to a directory.
pub fn host_entry(target: Option<String>, is_dir: bool) -> (res: HostEntry)
    ensures
        res == (match target {
            Some(target) => HostEntry::Symlink(target),
            None => if is_dir {
                HostEntry::Directory
            } else {
                HostEntry::Missing
            },
        }),
{
    match target {
        Some(target) => HostEntry::Symlink(target),
        None => if is_dir {
            HostEntry::Directory
        } else {
            HostEntry::Missing
        },
    }
}

/// A mount of a host path at the same path in the jail.
pub open spec fn bind_view(path: Seq<char>, rw: bool) -> MountView {
    MountView {
        src: Some(path),
        dst: path,
        fstype: None,
        options: None,
        is_bind: Some(true),
        rw: Some(rw),
        mandatory: Some(true),
        is_symlink: None,
    }
}

/// A symbolic link in the jail.
pub open spec fn symlink_view(target: Seq<char>, path: Seq<char>) -> MountView {
    MountView {
        src: Some(target),
        dst: path,
        fstype: None,
        options: None,
        is_bind: None,
        rw: None,
        mandatory: Some(true),
        is_symlink: Some(true),
    }
}

/// The mount that makes the jail show what the host has at a path: the same
/// link, the directory itself, or nothing.
pub open spec fn entry_mounts(path: Seq<char>, entry: HostEntry) -> Seq<MountView> {
    match entry {
        HostEntry::Symlink(target) => seq![symlink_view(target@, path)],
        HostEntry::Directory => seq![bind_view(path, false)],
        HostEntry::Missing => seq![],
    }
}

/// The mounts for the first `n` directories of the host's layout.
pub open spec fn usr_mounts(entries: Seq<HostEntry>, n: nat) -> Seq<MountView>
    decreases n,
{
    if n == 0 {
        seq![]
    } else {
        usr_mounts(entries, (n - 1) as nat) + entry_mounts(usr_layout()[n - 1], entries[n - 1])
    }
}

/// The mounts that the host's layout calls for.
pub open spec fn layout_mounts(entries: Seq<HostEntry>, resolver: bool) -> Seq<MountView> {
    let usr = usr_mounts(entries, usr_layout().len());
    if resolver {
        usr.push(bind_view(RESOLVER_DIR@, false))
    } else {
        usr
    }
}

/// A bind mount at the same path, read-write or read-only.
pub fn bind_mount(path: &str, rw: bool) -> (res: MountPt)
    ensures
        res@ == bind_view(path@, rw),
{
    MountPt {
        src: Some(path.to_owned()),
        dst: path.to_owned(),
        fstype: None,
        options: None,
        is_bind: Some(true),
        rw: Some(rw),
        mandatory: Some(true),
        is_symlink: None,
    }
}

/// Returns /bin, /sbin, /lib, /lib32, /lib64 and optional DNS-resolver mounts
/// based on the host filesystem layout: what the host has at each of
/// [`usr_layout_dirs`], and whether it has the resolver's directory.
pub fn get_host_layout_mounts(entries: &Vec<HostEntry>, resolver: bool) -> (res: Vec<MountPt>)
    requires
        entries@.len() == usr_layout().len(),
    ensures
        mount_views(res@) == layout_mounts(entries@, resolver),
{
    let dirs = usr_layout_dirs();
    let mut mounts: Vec<MountPt> = Vec::new();
    let mut i: usize = 0;
    assert(mount_views(mounts@) =~= usr_mounts(entries@, 0));
    while i < dirs.len()
        invariant
            i <= dirs@.len() == entries@.len(),
            dirs@.len() == usr_layout().len(),
            forall|j: int| 0 <= j < dirs@.len() ==> (#[trigger] dirs@[j])@ == usr_layout()[j],
            mount_views(mounts@) == usr_mounts(entries@, i as nat),
        decreases dirs.len() - i,
    {
        let dir = dirs[i];
        let ghost before = mount_views(mounts@);
        match &entries[i] {
            HostEntry::Symlink(target) => {
                // Merged-usr: mirror the exact target inside the jail.
                mounts.push(
                    MountPt {
                        src: Some(target.clone()),
                        dst: dir.to_owned(),
                        fstype: None,
                        options: None,
                        is_bind: None,
                        rw: None,
                        mandatory: Some(true),
                        is_symlink: Some(true),
                    },
                );
                assert(mounts@.last()@ == symlink_view(target@, dir@));
            },
            HostEntry::Directory => {
                // Real directory (non-merged-usr): bind-mount it.
                mounts.push(bind_mount(dir, false));
            },
            HostEntry::Missing => {
                // Missing entirely (e.g. /lib64 on some 32-bit systems).
            },
        }
        assert(mount_views(mounts@) =~= before + entry_mounts(dir@, entries@[i as int]));
        i += 1;
    }
    if resolver {
        // DNS resolution: the stub listener needs its socket.
        let ghost before = mount_views(mounts@);
        mounts.push(bind_mount(RESOLVER_DIR, false));
        assert(mount_views(mounts@) =~= before.push(bind_view(RESOLVER_DIR@, false)));
    }
    mounts
}

// ---------------------------------------------------------------------------
// Keeping the home directory out
// ---------------------------------------------------------------------------

/// True if a mount of `path` would show `home`. Both are canonical; a path that
/// could not be canonicalized shows nothing.
pub open spec fn shows_home(path: Option<Seq<u8>>, home: Option<Seq<u8>>) -> bool {
    match (path, home) {
        (Some(path), Some(home)) => within(home, path),
        _ => false,
    }
}

/// Returns true if `path` is `home` or an ancestor of `home`.
/// Both paths have been canonicalized to resolve symlinks and `..`; a path for
/// which that failed is `None`.
pub fn exposes_home(path: &Option<Vec<u8>>, home: &Option<Vec<u8>>) -> (res: bool)
    ensures
        res == shows_home(opt_path(*path), opt_path(*home)),
{
    match (path, home) {
        (Some(path), Some(home)) => starts_with(home.as_slice(), path.as_slice()),
        _ => false,
    }
}

/// The first of the canonical paths whose mount would show the home directory.
pub fn refused_mount(mounts: &Vec<Option<Vec<u8>>>, home: &Option<Vec<u8>>) -> (res: Option<usize>)
    ensures
        match res {
            Some(i) => {
                &&& i < mounts@.len()
                &&& shows_home(opt_path(mounts@[i as int]), opt_path(*home))
                &&& forall|j: int|
                    0 <= j < i ==> !shows_home(opt_path(#[trigger] mounts@[j]), opt_path(*home))
            },
            None => forall|j: int|
                0 <= j < mounts@.len() ==> !shows_home(
                    opt_path(#[trigger] mounts@[j]),
                    opt_path(*home),
                ),
        },
{
    let mut i: usize = 0;
    while i < mounts.len()
        invariant
            i <= mounts@.len(),
            forall|j: int|
                0 <= j < i ==> !shows_home(opt_path(#[trigger] mounts@[j]), opt_path(*home)),
        decreases mounts.len() - i,
    {
        if exposes_home(&mounts[i], home) {
            return Some(i);
        }
        i += 1;
    }
    None
}

/// What the user is told of a mount that would show the home directory.
pub fn refusal_message(path: &str, home: &str) -> (res: String)
    ensures
        res@ == "error: refusing to mount '"@ + path@ + "': would expose $HOME ("@ + home@ + ")"@,
{
    let mut res = "error: refusing to mount '".to_owned();
    res.append(path);
    res.append("': would expose $HOME (");
    res.append(home);
    res.append(")");
    res
}

// ---------------------------------------------------------------------------
// The jail
// ---------------------------------------------------------------------------

/// Sandboxed execution environment for coding agents, as asked for.
#[derive(Debug)]
pub struct Cli {
    /// Persistent home directory to bind-mount at $HOME inside the jail.
    /// If omitted, a tmpfs is used (ephemeral, discarded on exit).
    pub home: Option<String>,
    /// File to write nsjail's own log output to (default: stderr).
    pub log_file: Option<String>,
    /// Read-write bind mounts.
    pub rw_mounts: Vec<String>,
    /// Read-only bind mounts.
    pub ro_mounts: Vec<String>,
    /// Command and arguments to run inside the sandbox.
    pub command: Vec<String>,
}

/// What the host says of itself.
#[derive(Debug)]
pub struct Host {
    /// $HOME.
    pub home: String,
    /// $HOME, canonicalized.
    pub canonical_home: Option<Vec<u8>>,
    /// The read-write mounts and then the read-only ones, canonicalized.
    pub canonical_mounts: Vec<Option<Vec<u8>>>,
    /// What the host has at each of [`usr_layout_dirs`].
    pub entries: Vec<HostEntry>,
    /// True if the host has the resolver's directory.
    pub resolver: bool,
}

/// What is added to the jail's base configuration.
#[derive(Debug)]
pub struct JailPlan {
    /// Mounts, after those of the base configuration.
    pub mount: Vec<MountPt>,
    /// Working directory.
    pub cwd: String,
    /// Log file, where it is not left to the base configuration.
    pub log_file: Option<String>,
    /// What to run.
    pub exec_bin: Exe,
}

/// The size of an ephemeral home directory.
pub const TMPFS_OPTIONS: &'static str = "size=8589934592";

/// The mount at $HOME: the persistent home directory, or a tmpfs.
pub open spec fn home_mount(dir: Option<Seq<char>>, home: Seq<char>) -> MountView {
    match dir {
        Some(dir) => MountView { dst: home, ..bind_view(dir, true) },
        None => MountView {
            src: None,
            dst: home,
            fstype: Some("tmpfs"@),
            options: Some(TMPFS_OPTIONS@),
            is_bind: None,
            rw: Some(true),
            mandatory: Some(true),
            is_symlink: None,
        },
    }
}

/// Bind mounts of a list of paths.
pub open spec fn bind_views(paths: Seq<Seq<char>>, rw: bool) -> Seq<MountView> {
    Seq::new(paths.len(), |i: int| bind_view(paths[i], rw))
}

/// All mounts of a jail after those of its base configuration.
pub open spec fn jail_mounts(cli: Cli, host: Host) -> Seq<MountView> {
    layout_mounts(host.entries@, host.resolver) + seq![home_mount(opt_chars(cli.home), host.home@)]
        + bind_views(texts(cli.rw_mounts@), true) + bind_views(texts(cli.ro_mounts@), false)
}

/// The request and what the host says of itself fit together.
pub open spec fn host_fits(cli: Cli, host: Host) -> bool {
    &&& host.entries@.len() == usr_layout().len()
    &&& host.canonical_mounts@.len() == cli.rw_mounts@.len() + cli.ro_mounts@.len()
    &&& cli.command@.len() > 0
}

/// No mount that was asked for shows the home directory.
pub open spec fn home_is_hidden(host: Host) -> bool {
    forall|i: int|
        0 <= i < host.canonical_mounts@.len() ==> !shows_home(
            opt_path(#[trigger] host.canonical_mounts@[i]),
            opt_path(host.canonical_home),
        )
}

fn push_binds(mounts: &mut Vec<MountPt>, paths: &Vec<String>, rw: bool)
    ensures
        mount_views(final(mounts)@) == mount_views(old(mounts)@) + bind_views(texts(paths@), rw),
{
    let ghost before = mount_views(mounts@);
    let mut i: usize = 0;
    assert(before + bind_views(texts(paths@).take(0), rw) =~= before);
    while i < paths.len()
        invariant
            i <= paths@.len(),
            mount_views(mounts@) == before + bind_views(texts(paths@).take(i as int), rw),
        decreases paths.len() - i,
    {
        let ghost so_far = mount_views(mounts@);
        let m = bind_mount(paths[i].as_str(), rw);
        mounts.push(m);
        assert(mount_views(mounts@) =~= so_far.push(m@));
        assert(bind_views(texts(paths@).take(i + 1), rw) =~= bind_views(
            texts(paths@).take(i as int),
            rw,
        ).push(m@));
        assert(mount_views(mounts@) =~= before + bind_views(texts(paths@).take(i + 1), rw));
        i += 1;
    }
    assert(texts(paths@).take(i as int) =~= texts(paths@));
}

impl Cli {
    /// Plans the jail. A mount that would expose the real home directory is
    /// refused, with its place among the read-write and then the read-only
    /// mounts; the sandbox then exits with [`FAILED_CODE`](crate::status::FAILED_CODE).
    pub fn run(&self, host: &Host) -> (res: Result<JailPlan, usize>)
        requires
            host_fits(*self, *host),
        ensures
            match res {
                Ok(plan) => {
                    &&& home_is_hidden(*host)
                    &&& mount_views(plan.mount@) == jail_mounts(*self, *host)
                    &&& plan.cwd@ == host.home@
                    &&& opt_chars(plan.log_file) == opt_chars(self.log_file)
                    &&& plan.exec_bin.path@ == self.command@[0]@
                    &&& opt_chars(plan.exec_bin.arg0) == Some(self.command@[0]@)
                    &&& texts(plan.exec_bin.arg@) == texts(self.command@).skip(1)
                    &&& plan.exec_bin.exec_fd is None
                },
                Err(i) => {
                    &&& i < host.canonical_mounts@.len()
                    &&& shows_home(
                        opt_path(host.canonical_mounts@[i as int]),
                        opt_path(host.canonical_home),
                    )
                    &&& forall|j: int|
                        0 <= j < i ==> !shows_home(
                            opt_path(#[trigger] host.canonical_mounts@[j]),
                            opt_path(host.canonical_home),
                        )
                },
            },
    {
        if let Some(i) = refused_mount(&host.canonical_mounts, &host.canonical_home) {
            return Err(i);
        }
        let mut mount = get_host_layout_mounts(&host.entries, host.resolver);
        let ghost base = mount_views(mount@);
        match &self.home {
            Some(dir) => {
                // Remap to $HOME inside the jail.
                let m = bind_mount(dir.as_str(), true);
                mount.push(MountPt { dst: host.home.clone(), ..m });
            },
            None => {
                mount.push(
                    MountPt {
                        src: None,
                        dst: host.home.clone(),
                        fstype: Some("tmpfs".to_owned()),
                        options: Some(TMPFS_OPTIONS.to_owned()),
                        is_bind: None,
                        rw: Some(true),
                        mandatory: Some(true),
                        is_symlink: None,
                    },
                );
            },
        }
        assert(mount@.last()@ == home_mount(opt_chars(self.home), host.home@));
        assert(mount_views(mount@) =~= base + seq![
            home_mount(opt_chars(self.home), host.home@),
        ]);
        push_binds(&mut mount, &self.rw_mounts, true);
        push_binds(&mut mount, &self.ro_mounts, false);
        let log_file = match &self.log_file {
            Some(path) => Some(path.clone()),
            None => None,
        };
        let mut arg: Vec<String> = Vec::new();
        let mut i: usize = 1;
        while i < self.command.len()
            invariant
                1 <= i <= self.command@.len(),
                texts(arg@) == texts(self.command@).subrange(1, i as int),
            decreases self.command.len() - i,
        {
            let ghost before = texts(arg@);
            arg.push(self.command[i].clone());
            assert(texts(arg@) =~= before.push(self.command@[i as int]@));
            assert(texts(self.command@).subrange(1, i + 1) =~= before.push(
                self.command@[i as int]@,
            ));
            i += 1;
        }
        assert(texts(self.command@).subrange(1, i as int) =~= texts(self.command@).skip(1));
        Ok(
            JailPlan {
                mount,
                cwd: host.home.clone(),
                log_file,
                exec_bin: Exe {
                    path: self.command[0].clone(),
                    arg0: Some(self.command[0].clone()),
                    arg,
                    exec_fd: None,
                },
            },
        )
    }
}

// ---------------------------------------------------------------------------
// Laws
// ---------------------------------------------------------------------------

/// Nothing of the host's layout is mounted writable.
pub proof fn law_layout_is_read_only(entries: Seq<HostEntry>, resolver: bool)
    ensures
        forall|i: int|
            0 <= i < layout_mounts(entries, resolver).len() ==> (#[trigger] layout_mounts(
                entries,
                resolver,
            )[i]).rw != Some(true),
{
    lemma_usr_read_only(entries, usr_layout().len());
}

proof fn lemma_usr_read_only(entries: Seq<HostEntry>, n: nat)
    ensures
        forall|i: int|
            0 <= i < usr_mounts(entries, n).len() ==> (#[trigger] usr_mounts(entries, n)[i]).rw
                != Some(true),
    decreases n,
{
    if n > 0 {
        lemma_usr_read_only(entries, (n - 1) as nat);
    }
}

/// A mount is writable only if it is the one at $HOME inside the jail, or one
/// that the user asked for as writable.
pub proof fn law_writable_mounts(cli: Cli, host: Host, i: int)
    requires
        0 <= i < jail_mounts(cli, host).len(),
        jail_mounts(cli, host)[i].rw == Some(true),
    ensures
        jail_mounts(cli, host)[i] == home_mount(opt_chars(cli.home), host.home@) || exists|j: int|
            0 <= j < cli.rw_mounts@.len() && jail_mounts(cli, host)[i] == bind_view(
                (#[trigger] cli.rw_mounts@[j])@,
                true,
            ),
{
    let layout = layout_mounts(host.entries@, host.resolver);
    let rw = bind_views(texts(cli.rw_mounts@), true);
    law_layout_is_read_only(host.entries@, host.resolver);
    assert(i < layout.len() ==> jail_mounts(cli, host)[i] == layout[i]);
    let j = i - layout.len() - 1;
    if 0 <= j < rw.len() {
        assert(jail_mounts(cli, host)[i] == rw[j]);
        assert(rw[j] == bind_view(cli.rw_mounts@[j]@, true));
    }
}

/// A mount of the root always shows the home directory.
pub proof fn law_root_shows_home(home: Seq<u8>)
    requires
        absolute(home),
    ensures
        shows_home(Some(seq![SLASH]), Some(home)),
{
    law_within_root(home);
}

/// A directory above one that shows the home directory shows it too.
pub proof fn law_directories_above_show_home(path: Seq<u8>, above: Seq<u8>, home: Seq<u8>)
    requires
        shows_home(Some(path), Some(home)),
        within(path, above),
    ensures
        shows_home(Some(above), Some(home)),
{
    law_within_is_transitive(home, path, above);
}

/// $HOME is always mounted in the jail, right after the host's layout.
pub proof fn law_home_is_mounted(cli: Cli, host: Host)
    ensures
        ({
            let at = layout_mounts(host.entries@, host.resolver).len() as int;
            &&& at < jail_mounts(cli, host).len()
            &&& jail_mounts(cli, host)[at] == home_mount(opt_chars(cli.home), host.home@)
            &&& jail_mounts(cli, host)[at].dst == host.home@
        }),
{
}

/// The directories whose layout is taken over, in this order.
pub proof fn law_layout_dirs()
    ensures
        usr_layout() == seq!["/bin"@, "/sbin"@, "/lib"@, "/lib32"@, "/lib64"@],
        RESOLVER_DIR@ == "/run/systemd/resolve"@,
        TMPFS_OPTIONS@ == "size=8589934592"@,
{
}

/// A bind mount shows a path at itself, as writable as asked, and nothing else
/// is said of it; so two bind mounts are alike only if they are of one path.
pub proof fn law_bind_mounts(a: Seq<char>, b: Seq<char>, rw: bool, other: bool)
    ensures
        bind_view(a, rw) == (MountView {
            src: Some(a),
            dst: a,
            fstype: None,
            options: None,
            is_bind: Some(true),
            rw: Some(rw),
            mandatory: Some(true),
            is_symlink: None,
        }),
        bind_view(a, rw) == bind_view(b, other) ==> a == b && rw == other,
{
}

/// How many of the first `n` directories the host has.
pub open spec fn entries_shown(entries: Seq<HostEntry>, n: nat) -> nat
    decreases n,
{
    if n == 0 {
        0
    } else if entries[n - 1] is Missing {
        entries_shown(entries, (n - 1) as nat)
    } else {
        entries_shown(entries, (n - 1) as nat) + 1
    }
}

/// What is mounted where the host has this entry at this path.
pub open spec fn mirrors(mount: MountView, path: Seq<char>, entry: HostEntry) -> bool {
    &&& mount.dst == path
    &&& mount.fstype is None
    &&& mount.options is None
    &&& mount.mandatory == Some(true)
    &&& match entry {
        HostEntry::Symlink(target) => {
            &&& mount.src == Some(target@)
            &&& mount.is_symlink == Some(true)
            &&& mount.is_bind is None
            &&& mount.rw is None
        },
        HostEntry::Directory => {
            &&& mount.src == Some(path)
            &&& mount.is_symlink is None
            &&& mount.is_bind == Some(true)
            &&& mount.rw == Some(false)
        },
        HostEntry::Missing => false,
    }
}

proof fn lemma_usr_mounts(entries: Seq<HostEntry>, n: nat, k: int)
    ensures
        usr_mounts(entries, n).len() == entries_shown(entries, n),
        0 <= k < n && !(entries[k] is Missing) ==> {
            &&& entries_shown(entries, k as nat) < entries_shown(entries, n)
            &&& mirrors(
                usr_mounts(entries, n)[entries_shown(entries, k as nat) as int],
                usr_layout()[k],
                entries[k],
            )
        },
    decreases n,
{
    if n > 0 {
        lemma_usr_mounts(entries, (n - 1) as nat, k);
        let before = usr_mounts(entries, (n - 1) as nat);
        let added = entry_mounts(usr_layout()[n - 1], entries[n - 1]);
        if 0 <= k < n && !(entries[k] is Missing) {
            let at = entries_shown(entries, k as nat) as int;
            if k == n - 1 {
                assert((before + added)[at] == added[0]);
            } else {
                assert((before + added)[at] == before[at]);
            }
        }
    }
}

/// Each directory that the host has is shown as the host has it, in the order of
/// the list: a link as a link with the same target, a directory by a read-only
/// bind mount. What the host lacks is not shown, and the resolver's directory
/// comes last, where there is one.
pub proof fn law_layout_mirrors_the_host(entries: Seq<HostEntry>, resolver: bool, k: int)
    requires
        entries.len() == 5,
    ensures
        layout_mounts(entries, true).len() == entries_shown(entries, 5) + 1,
        layout_mounts(entries, false).len() == entries_shown(entries, 5),
        mirrors(
            layout_mounts(entries, true).last(),
            "/run/systemd/resolve"@,
            HostEntry::Directory,
        ),
        0 <= k < 5 && !(entries[k] is Missing) ==> {
            &&& entries_shown(entries, k as nat) < layout_mounts(entries, resolver).len()
            &&& mirrors(
                layout_mounts(entries, resolver)[entries_shown(entries, k as nat) as int],
                usr_layout()[k],
                entries[k],
            )
        },
{
    lemma_usr_mounts(entries, 5, k);
}

/// The mount at $HOME is the persistent home directory, writable, where one was
/// given, and else a writable tmpfs.
pub proof fn law_home_mounts(dir: Seq<char>, home: Seq<char>)
    ensures
        home_mount(Some(dir), home) == (MountView {
            src: Some(dir),
            dst: home,
            fstype: None,
            options: None,
            is_bind: Some(true),
            rw: Some(true),
            mandatory: Some(true),
            is_symlink: None,
        }),
        home_mount(None, home) == (MountView {
            src: None,
            dst: home,
            fstype: Some("tmpfs"@),
            options: Some("size=8589934592"@),
            is_bind: None,
            rw: Some(true),
            mandatory: Some(true),
            is_symlink: None,
        }),
{
}

/// Every path that was asked for is mounted at itself, writable or read-only as
/// asked, in the order of the request and after $HOME, and nothing else is
/// mounted.
pub proof fn law_requested_mounts(cli: Cli, host: Host)
    ensures
        ({
            let mounts = jail_mounts(cli, host);
            let layout = layout_mounts(host.entries@, host.resolver);
            let rw = cli.rw_mounts@;
            let ro = cli.ro_mounts@;
            &&& mounts.len() == layout.len() + 1 + rw.len() + ro.len()
            &&& mounts.take(layout.len() as int) == layout
            &&& mounts[layout.len() as int].dst == host.home@
            &&& forall|i: int|
                0 <= i < rw.len() ==> mounts[layout.len() + 1 + i] == (MountView {
                    src: Some((#[trigger] rw[i])@),
                    dst: rw[i]@,
                    fstype: None,
                    options: None,
                    is_bind: Some(true),
                    rw: Some(true),
                    mandatory: Some(true),
                    is_symlink: None,
                })
            &&& forall|i: int|
                0 <= i < ro.len() ==> mounts[layout.len() + 1 + rw.len() + i] == (MountView {
                    src: Some((#[trigger] ro[i])@),
                    dst: ro[i]@,
                    fstype: None,
                    options: None,
                    is_bind: Some(true),
                    rw: Some(false),
                    mandatory: Some(true),
                    is_symlink: None,
                })
        }),
{
    let mounts = jail_mounts(cli, host);
    let layout = layout_mounts(host.entries@, host.resolver);
    assert(mounts.take(layout.len() as int) =~= layout);
    let rw = cli.rw_mounts@;
    let ro = cli.ro_mounts@;
    assert forall|i: int| 0 <= i < rw.len() implies mounts[layout.len() + 1 + i] == bind_view(
        (#[trigger] rw[i])@,
        true,
    ) by {
        assert(mounts[layout.len() + 1 + i] == bind_views(texts(rw), true)[i]);
    }
    assert forall|i: int| 0 <= i < ro.len() implies mounts[layout.len() + 1 + rw.len() + i]
        == bind_view((#[trigger] ro[i])@, false) by {
        assert(mounts[layout.len() + 1 + rw.len() + i] == bind_views(texts(ro), false)[i]);
    }
}

/// Every path of a list has its own bind mount, at its own place.
pub proof fn law_every_path_is_bound(paths: Seq<Seq<char>>, rw: bool)
    ensures
        bind_views(paths, rw).len() == paths.len(),
        forall|i: int|
            0 <= i < paths.len() ==> {
                let mount = #[trigger] bind_views(paths, rw)[i];
                &&& mount.src == Some(paths[i])
                &&& mount.dst == paths[i]
                &&& mount.is_bind == Some(true)
                &&& mount.rw == Some(rw)
            },
{
}

/// A mount shows the home directory only if both are known and it is that
/// directory or one above it.
pub proof fn law_what_shows_home(path: Seq<u8>, home: Seq<u8>, other: Option<Seq<u8>>)
    ensures
        shows_home(Some(path), Some(home)) <==> within(home, path),
        shows_home(Some(home), Some(home)),
        !shows_home(None, other),
        !shows_home(other, None),
{
}

/// The home directory is hidden exactly if none of the mounts that were asked
/// for is at it or above it.
pub proof fn law_hiding_home(host: Host)
    ensures
        host.canonical_home is None ==> home_is_hidden(host),
        host.canonical_home matches Some(home) ==> (home_is_hidden(host) <==> !exists|i: int|
            #![trigger host.canonical_mounts@[i]]
            0 <= i < host.canonical_mounts@.len() && host.canonical_mounts@[i] is Some && within(
                home@,
                host.canonical_mounts@[i]->Some_0@,
            )),
{
}

/// What the host must say of itself: five entries, and one canonical path for
/// each mount that was asked for. And there must be a command.
pub proof fn law_what_fits(cli: Cli, host: Host)
    ensures
        host_fits(cli, host) <==> host.entries@.len() == 5 && host.canonical_mounts@.len()
            == cli.rw_mounts@.len() + cli.ro_mounts@.len() && cli.command@.len() >= 1,
{
}

/// A list of mounts shows each of them, in order, with all that it says.
pub proof fn law_mount_views(mounts: Seq<MountPt>, text: String)
    ensures
        mount_views(mounts).len() == mounts.len(),
        forall|i: int|
            0 <= i < mounts.len() ==> {
                let mount = #[trigger] mount_views(mounts)[i];
                &&& mount.src == opt_chars(mounts[i].src)
                &&& mount.dst == mounts[i].dst@
                &&& mount.fstype == opt_chars(mounts[i].fstype)
                &&& mount.options == opt_chars(mounts[i].options)
                &&& mount.is_bind == mounts[i].is_bind
                &&& mount.rw == mounts[i].rw
                &&& mount.mandatory == mounts[i].mandatory
                &&& mount.is_symlink == mounts[i].is_symlink
            },
        opt_chars(Some(text)) == Some(text@),
        opt_chars(None) is None,
{
}

} // verus!
