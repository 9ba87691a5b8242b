//! Where a workspace session keeps its files, and whether one is running.

use crate::path::{
    absolute, is_absolute, join, joined, law_join_stays_within, law_joining,
    law_within_is_transitive, path_copy, path_list, within, SLASH,
};
use crate::text::{
    decimal, hex, hex_digit_means, i32_value, integer_value, law_hex_digits, law_hex_tells_apart,
    law_only_digits_are_integers, law_signed_decimal_reads_back, law_trimming_takes_the_margins,
    lossy_text, lossy_utf8, parse_i32, push_decimal, push_signed, same_text, signed_decimal,
    to_chars, to_hex, trim, trimmed, utf8_str, white_space,
};
use vstd::prelude::*;
use vstd::string::*;
use vstd::utf8::{encode_utf8, valid_utf8};

verus! {

/// The gRPC socket's file name.
pub const SOCKET_NAME: &'static str = "grpc_exec.sock";

/// The PID file's name.
pub const PID_NAME: &'static str = "launcher.pid";

/// The directory inside the workspace that holds both.
pub const RUNTIME_DIR_NAME: &'static str = ".agent-shell-tools";

/// The longest path a Unix socket can be bound to, in bytes.
pub const SOCKET_PATH_LIMIT: usize = 107;

/// The error number of a signal that may not be sent to an existing process.
pub const EPERM: i32 = 1;

/// The bytes of a string.
pub open spec fn bytes_of(s: Seq<char>) -> Seq<u8> {
    encode_utf8(s)
}

/// The bytes of an optional string.
pub open spec fn opt_bytes(s: Option<String>) -> Option<Seq<u8>> {
    match s {
        Some(s) => Some(bytes_of(s@)),
        None => None,
    }
}

// ---------------------------------------------------------------------------
// Paths taken from the command line and the environment
// ---------------------------------------------------------------------------

/// A path as seen from the directory the user is in, where that is known to
/// differ from the process's own.
pub open spec fn resolved(path: Seq<u8>, build_dir: Option<Seq<u8>>) -> Seq<u8> {
    if absolute(path) {
        path
    } else {
        match build_dir {
            Some(dir) => joined(dir, path),
            None => path,
        }
    }
}

/// Resolve a potentially-relative path against the real working directory.
/// When launched via `bazel run`, the process cwd is inside the runfiles
/// tree; `build_dir` is the original shell cwd, which Bazel hands on in
/// BUILD_WORKING_DIRECTORY.
pub fn resolve_path(p: &[u8], build_dir: &Option<String>) -> (res: Vec<u8>)
    ensures
        res@ == resolved(p@, opt_bytes(*build_dir)),
{
    if is_absolute(p) {
        return path_copy(p);
    }
    match build_dir {
        Some(dir) => join(dir.as_str().as_bytes(), p),
        None => path_copy(p),
    }
}

/// Resolve a binary path. Relative paths are seen from where `resolve_path`
/// sees them.
pub fn resolve_binary_path(p: &[u8], build_dir: &Option<String>) -> (res: Vec<u8>)
    ensures
        res@ == resolved(p@, opt_bytes(*build_dir)),
{
    resolve_path(p, build_dir)
}

/// The data home: the one the user set, else `.local/share` below the home
/// directory; `None` where neither is known.
pub open spec fn data_home_of(xdg: Option<Seq<u8>>, home: Option<Seq<u8>>) -> Option<Seq<u8>> {
    match xdg {
        Some(dir) => Some(dir),
        None => match home {
            Some(dir) => Some(joined(dir, bytes_of(".local/share"@))),
            None => None,
        },
    }
}

/// XDG data home, defaulting to $HOME/.local/share.
pub fn data_home(xdg: &Option<String>, home: &Option<String>) -> (res: Result<Vec<u8>, SetupError>)
    ensures
        match data_home_of(opt_bytes(*xdg), opt_bytes(*home)) {
            Some(dir) => res matches Ok(path) && path@ == dir,
            None => res is Err && res->Err_0@ == SetupErrorView::NoDataHome,
        },
{
    if let Some(dir) = xdg {
        return Ok(path_copy(dir.as_str().as_bytes()));
    }
    match home {
        Some(dir) => Ok(join(dir.as_str().as_bytes(), ".local/share".as_bytes())),
        None => Err(SetupError::NoDataHome),
    }
}

// ---------------------------------------------------------------------------
// Workspace identity
// ---------------------------------------------------------------------------

/// The SHA-256 digest of a byte sequence.
pub uninterp spec fn sha256_digest(data: Seq<u8>) -> Seq<u8>;

/// Hashes bytes with SHA-256.
///
/// Calls `sha2::Sha256::digest`. The contract names the digest, which is a
/// function of the bytes, and claims that it is 32 bytes long.
#[verifier::external_body]
fn sha256(data: &[u8]) -> (res: Vec<u8>)
    ensures
        res@ == sha256_digest(data@),
        res@.len() == 32,
{
    <sha2::Sha256 as sha2::Digest>::digest(data).to_vec()
}

/// The workspace ID that a digest gives: its first eight bytes in hexadecimal.
pub open spec fn id_of_digest(digest: Seq<u8>) -> Seq<char> {
    hex(digest.take(8))
}

/// The workspace ID of a canonical path.
pub open spec fn id_of(canonical: Seq<u8>) -> Seq<char> {
    id_of_digest(sha256_digest(canonical))
}

/// The workspace ID that a digest gives.
pub fn digest_id(digest: &[u8]) -> (res: String)
    requires
        digest@.len() >= 8,
    ensures
        res@ == id_of_digest(digest@),
{
    to_hex(vstd::slice::slice_subrange(digest, 0, 8))
}

/// First 16 hex chars of SHA-256 of the canonical workspace path.
pub fn workspace_id(canonical: &[u8]) -> (res: Result<String, SetupError>)
    ensures
        if valid_utf8(canonical@) {
            res matches Ok(id) && id@ == id_of(canonical@) && is_workspace_id(id@)
        } else {
            res is Err && res->Err_0@ == (SetupErrorView::WorkspaceNotUtf8 {
                shown: lossy_utf8(canonical@),
            })
        },
{
    match utf8_str(canonical) {
        Some(path) => {
            let digest = sha256(path.as_bytes());
            proof {
                law_digest_id_shape(digest@);
            }
            Ok(digest_id(digest.as_slice()))
        },
        None => Err(SetupError::WorkspaceNotUtf8 { shown: lossy_text(canonical) }),
    }
}

/// Sixteen lower-case hexadecimal digits.
pub open spec fn is_workspace_id(id: Seq<char>) -> bool {
    id.len() == 16 && forall|i: int|
        0 <= i < id.len() ==> ('0' <= #[trigger] id[i] && id[i] <= '9') || ('a' <= id[i] && id[i]
            <= 'f')
}

/// Every digest gives an ID of sixteen lower-case hexadecimal digits.
pub proof fn law_digest_id_shape(digest: Seq<u8>)
    requires
        digest.len() >= 8,
    ensures
        is_workspace_id(id_of_digest(digest)),
{
}

// ---------------------------------------------------------------------------
// Layout
// ---------------------------------------------------------------------------

/// Resolved paths for a workspace session.
#[derive(Debug)]
pub struct Layout {
    /// Canonical absolute path to the workspace.
    pub workspace: Vec<u8>,
    /// State directory: ~/.local/share/agent-shell-tools/<id>/
    pub data_dir: Vec<u8>,
    /// Persistent sandbox home: data_dir/home/
    pub home_dir: Vec<u8>,
    /// Runtime directory inside the workspace: <workspace>/.agent-shell-tools/
    pub runtime_dir: Vec<u8>,
    /// Unix socket path: runtime_dir/grpc_exec.sock
    pub socket_path: Vec<u8>,
    /// PID file: runtime_dir/launcher.pid
    pub pid_path: Vec<u8>,
    /// Sandbox log: data_dir/sandbox.log
    pub log_path: Vec<u8>,
}

/// The bytes of a [`Layout`]'s paths.
#[verifier::ext_equal]
pub struct LayoutView {
    pub workspace: Seq<u8>,
    pub data_dir: Seq<u8>,
    pub home_dir: Seq<u8>,
    pub runtime_dir: Seq<u8>,
    pub socket_path: Seq<u8>,
    pub pid_path: Seq<u8>,
    pub log_path: Seq<u8>,
}

impl View for Layout {
    type V = LayoutView;

    open spec fn view(&self) -> LayoutView {
        LayoutView {
            workspace: self.workspace@,
            data_dir: self.data_dir@,
            home_dir: self.home_dir@,
            runtime_dir: self.runtime_dir@,
            socket_path: self.socket_path@,
            pid_path: self.pid_path@,
            log_path: self.log_path@,
        }
    }
}

/// The state directory of the workspace with a given ID.
pub open spec fn data_dir_of(id: Seq<char>, data_home: Seq<u8>) -> Seq<u8> {
    joined(joined(data_home, bytes_of("agent-shell-tools"@)), bytes_of(id))
}

/// The runtime directory of a workspace.
pub open spec fn runtime_dir_of(workspace: Seq<u8>) -> Seq<u8> {
    joined(workspace, bytes_of(RUNTIME_DIR_NAME@))
}

/// Where everything of a workspace lies.
pub open spec fn layout_of(workspace: Seq<u8>, id: Seq<char>, data_home: Seq<u8>) -> LayoutView {
    let data_dir = data_dir_of(id, data_home);
    let runtime_dir = runtime_dir_of(workspace);
    LayoutView {
        workspace,
        data_dir,
        home_dir: joined(data_dir, bytes_of("home"@)),
        runtime_dir,
        socket_path: joined(runtime_dir, bytes_of(SOCKET_NAME@)),
        pid_path: joined(runtime_dir, bytes_of(PID_NAME@)),
        log_path: joined(data_dir, bytes_of("sandbox.log"@)),
    }
}

/// Why a workspace session cannot be laid out.
#[derive(Debug)]
pub enum SetupError {
    /// The workspace's path is not UTF-8, so it has no ID.
    WorkspaceNotUtf8 { shown: String },
    /// Neither XDG_DATA_HOME nor HOME is set.
    NoDataHome,
    /// The socket's path is longer than a Unix socket's may be.
    SocketPathTooLong { socket: String },
}

/// What a [`SetupError`] says: the workspace's path as it is shown, and the
/// bytes of the socket's path.
#[verifier::ext_equal]
pub enum SetupErrorView {
    WorkspaceNotUtf8 { shown: Seq<char> },
    NoDataHome,
    SocketPathTooLong { socket: Seq<u8> },
}

impl View for SetupError {
    type V = SetupErrorView;

    open spec fn view(&self) -> SetupErrorView {
        match self {
            SetupError::WorkspaceNotUtf8 { shown } => SetupErrorView::WorkspaceNotUtf8 {
                shown: shown@,
            },
            SetupError::NoDataHome => SetupErrorView::NoDataHome,
            SetupError::SocketPathTooLong { socket } => SetupErrorView::SocketPathTooLong {
                socket: bytes_of(socket@),
            },
        }
    }
}

/// What a [`SetupError`] tells the user.
pub open spec fn setup_error_text(e: SetupError) -> Seq<char> {
    match e {
        SetupError::WorkspaceNotUtf8 { shown } => "workspace path is not valid UTF-8: "@ + shown@,
        SetupError::NoDataHome => "neither XDG_DATA_HOME nor HOME is set"@,
        SetupError::SocketPathTooLong { socket } => "socket path is "@ + decimal(
            bytes_of(socket@).len(),
        ) + " bytes, exceeds Unix limit of "@ + decimal(SOCKET_PATH_LIMIT as nat) + ": "@ + socket@,
    }
}

impl SetupError {
    /// What went wrong, in words.
    pub fn message(&self) -> (res: String)
        ensures
            res@ == setup_error_text(*self),
    {
        match self {
            SetupError::WorkspaceNotUtf8 { shown } => {
                let mut res = "workspace path is not valid UTF-8: ".to_owned();
                res.append(shown.as_str());
                res
            },
            SetupError::NoDataHome => "neither XDG_DATA_HOME nor HOME is set".to_owned(),
            SetupError::SocketPathTooLong { socket } => {
                let mut res = "socket path is ".to_owned();
                push_decimal(&mut res, socket.as_str().as_bytes().len() as u64);
                res.append(" bytes, exceeds Unix limit of ");
                push_decimal(&mut res, SOCKET_PATH_LIMIT as u64);
                res.append(": ");
                res.append(socket.as_str());
                res
            },
        }
    }
}

/// The layout of a workspace. The workspace must have an ID, a data home must
/// be known, and the socket's path must fit; these are tested in this order.
pub open spec fn setup_of(
    workspace: Seq<u8>,
    xdg: Option<Seq<u8>>,
    home: Option<Seq<u8>>,
) -> Result<LayoutView, SetupErrorView> {
    if !valid_utf8(workspace) {
        Err(SetupErrorView::WorkspaceNotUtf8 { shown: lossy_utf8(workspace) })
    } else {
        match data_home_of(xdg, home) {
            None => Err(SetupErrorView::NoDataHome),
            Some(base) => {
                let layout = layout_of(workspace, id_of(workspace), base);
                if layout.socket_path.len() <= SOCKET_PATH_LIMIT {
                    Ok(layout)
                } else {
                    Err(SetupErrorView::SocketPathTooLong { socket: layout.socket_path })
                }
            },
        }
    }
}

/// Build the Layout for a workspace.
pub fn setup_layout(workspace: &[u8], xdg: &Option<String>, home: &Option<String>) -> (res: Result<
    Layout,
    SetupError,
>)
    ensures
        match setup_of(workspace@, opt_bytes(*xdg), opt_bytes(*home)) {
            Ok(layout) => res matches Ok(l) && l@ == layout && is_workspace_id(id_of(workspace@)),
            Err(e) => res is Err && res->Err_0@ == e,
        },
{
    let id = match workspace_id(workspace) {
        Ok(id) => id,
        Err(e) => {
            return Err(e);
        },
    };
    let base = match data_home(xdg, home) {
        Ok(dir) => dir,
        Err(e) => {
            return Err(e);
        },
    };
    let tools_dir = join(base.as_slice(), "agent-shell-tools".as_bytes());
    let data_dir = join(tools_dir.as_slice(), id.as_str().as_bytes());
    let home_dir = join(data_dir.as_slice(), "home".as_bytes());
    let runtime_dir = join(workspace, RUNTIME_DIR_NAME.as_bytes());
    let socket_path = join(runtime_dir.as_slice(), SOCKET_NAME.as_bytes());
    let pid_path = join(runtime_dir.as_slice(), PID_NAME.as_bytes());
    let log_path = join(data_dir.as_slice(), "sandbox.log".as_bytes());
    if socket_path.len() > SOCKET_PATH_LIMIT {
        proof {
            lemma_socket_path_utf8(workspace@);
        }
        let socket = utf8_str(socket_path.as_slice()).unwrap().to_owned();
        return Err(SetupError::SocketPathTooLong { socket });
    }
    let layout = Layout {
        workspace: path_copy(workspace),
        data_dir,
        home_dir,
        runtime_dir,
        socket_path,
        pid_path,
        log_path,
    };
    Ok(layout)
}

/// Where the metadata of a workspace is kept.
pub open spec fn metadata_path_of(layout: LayoutView) -> Seq<u8> {
    joined(layout.data_dir, bytes_of("workspace.toml"@))
}

impl Layout {
    /// Where the workspace's metadata is kept.
    pub fn metadata_path(&self) -> (res: Vec<u8>)
        ensures
            res@ == metadata_path_of(self@),
    {
        join(self.data_dir.as_slice(), "workspace.toml".as_bytes())
    }

    /// The metadata that is kept of the workspace.
    pub fn metadata(&self) -> (res: WorkspaceMeta)
        ensures
            res.path@ == lossy_utf8(self@.workspace),
            valid_utf8(self@.workspace) ==> bytes_of(res.path@) == self@.workspace,
    {
        WorkspaceMeta { path: lossy_text(self.workspace.as_slice()) }
    }
}

/// Metadata written to the state directory for workspace ID recovery.
#[derive(Debug)]
pub struct WorkspaceMeta {
    pub path: String,
}

/// The longest run of equal quotes that a text may hold to be written as TOML.
pub const LONGEST_QUOTE_RUN: usize = 255;

/// From `i` on there are more equal quotes, single or double, than may be.
pub open spec fn long_quote_run(bytes: Seq<u8>, i: int) -> bool {
    &&& 0 <= i && i + LONGEST_QUOTE_RUN < bytes.len()
    &&& bytes[i] == 34 || bytes[i] == 39
    &&& forall|j: int| i <= j <= i + LONGEST_QUOTE_RUN ==> #[trigger] bytes[j] == bytes[i]
}

/// No quote is repeated more often than may be. Every path that exists is such
/// a path: its components are no longer than that.
pub open spec fn quotes_fit(bytes: Seq<u8>) -> bool {
    forall|i: int| !#[trigger] long_quote_run(bytes, i)
}

/// True if no quote is repeated more often than may be.
pub fn has_short_quotes(bytes: &[u8]) -> (res: bool)
    ensures
        res == quotes_fit(bytes@),
{
    // The equal quotes before `i`, as many as there are.
    let mut run: usize = 0;
    let mut i: usize = 0;
    while i < bytes.len()
        invariant
            run <= i <= bytes.len(),
            run <= LONGEST_QUOTE_RUN,
            run > 0 ==> bytes@[i - 1] == 34 || bytes@[i - 1] == 39,
            forall|j: int| i - run <= j < i ==> #[trigger] bytes@[j] == bytes@[i - 1],
            run < i && run > 0 ==> bytes@[i - run - 1] != bytes@[i - 1],
            run == 0 && i > 0 ==> bytes@[i - 1] != 34 && bytes@[i - 1] != 39,
            forall|k: int|
                k + LONGEST_QUOTE_RUN < i ==> !#[trigger] long_quote_run(bytes@, k),
        decreases bytes.len() - i,
    {
        let b = bytes[i];
        let quote = b == 34 || b == 39;
        let ghost before = run;
        if !quote {
            run = 0;
        } else if run > 0 && bytes[i - 1] == b {
            if run == LONGEST_QUOTE_RUN {
                assert(long_quote_run(bytes@, i - LONGEST_QUOTE_RUN));
                return false;
            }
            run += 1;
        } else {
            run = 1;
        }
        proof {
            let k = i - LONGEST_QUOTE_RUN;
            if long_quote_run(bytes@, k) {
                assert(bytes@[i as int] == bytes@[k]);
                assert(bytes@[i - 1] == bytes@[k]);
                if before > 0 && before < LONGEST_QUOTE_RUN {
                    assert(bytes@[i - before - 1] == bytes@[k]);
                }
                assert(false);
            }
        }
        i += 1;
    }
    true
}

/// A key that is written in TOML as it is.
pub open spec fn bare_key(key: Seq<char>) -> bool {
    key.len() > 0 && forall|i: int|
        0 <= i < key.len() ==> ('a' <= #[trigger] key[i] && key[i] <= 'z') || ('A' <= key[i]
            && key[i] <= 'Z') || ('0' <= key[i] && key[i] <= '9') || key[i] == '-' || key[i] == '_'
}

/// The TOML document that holds one string under one key.
pub uninterp spec fn toml_entry(key: Seq<char>, value: Seq<char>) -> Seq<char>;

/// toml's serialization error.
#[verifier::external_type_specification]
#[verifier::external_body]
pub struct ExTomlError(toml::ser::Error);

/// Writes a TOML document that holds one string under one key.
///
/// Calls `toml::to_string_pretty` on the map of that one entry. The contract
/// names the document, which is a function of the key and the value, and claims
/// that the call succeeds, as it does on a map from strings to strings. It asks
/// that no quote be repeated more than 255 times: toml counts them in a byte,
/// which may overflow.
#[verifier::external_body]
fn toml_document(key: &str, value: &str) -> (res: Result<String, toml::ser::Error>)
    requires
        quotes_fit(bytes_of(value@)),
    ensures
        res is Ok,
        res->Ok_0@ == toml_entry(key@, value@),
{
    toml::to_string_pretty(&std::collections::BTreeMap::from([(key, value)]))
}

/// The keys of a TOML document with their values, where these are strings; or
/// the error with which the document is refused.
pub uninterp spec fn toml_entries(text: Seq<char>) -> Result<
    Seq<(Seq<char>, Option<Seq<char>>)>,
    toml::de::Error,
>;

/// toml's deserialization error.
#[verifier::external_type_specification]
#[verifier::external_body]
pub struct ExTomlReadError(toml::de::Error);

/// A key with its value, where that is a string.
pub type TomlEntry = (String, Option<String>);

pub open spec fn toml_entry_views(entries: Seq<TomlEntry>) -> Seq<(Seq<char>, Option<Seq<char>>)> {
    Seq::new(entries.len(), |i: int| (entries[i].0@, opt_text(entries[i].1)))
}

pub open spec fn toml_read_view(res: Result<Vec<TomlEntry>, toml::de::Error>) -> Result<
    Seq<(Seq<char>, Option<Seq<char>>)>,
    toml::de::Error,
> {
    match res {
        Ok(entries) => Ok(toml_entry_views(entries@)),
        Err(e) => Err(e),
    }
}

/// Reads the keys of a TOML document, with their values where these are
/// strings.
///
/// Calls `toml::from_str` for a map of TOML values, and `toml::Value::as_str` to
/// tell the strings among them. The contract names what
/// comes out, the error included, and claims one thing more: the document that
/// `toml_document` writes for a bare key gives back that one key with its
/// value.
#[verifier::external_body]
fn toml_strings(text: &str) -> (res: Result<Vec<TomlEntry>, toml::de::Error>)
    ensures
        toml_read_view(res) == toml_entries(text@),
        forall|key: Seq<char>, value: Seq<char>|
            bare_key(key) && quotes_fit(bytes_of(value)) && text@ == #[trigger] toml_entry(key, value)
                ==> res is Ok && toml_entry_views(res->Ok_0@) == seq![(key, Some(value))],
{
    let read = toml::from_str::<std::collections::BTreeMap<String, toml::Value>>(text)?;
    Ok(read.iter().map(|(k, v)| (k.clone(), v.as_str().map(String::from))).collect())
}

/// Why a workspace's metadata cannot be read.
#[derive(Debug)]
pub enum MetaError {
    /// It is not TOML.
    Syntax(toml::de::Error),
    /// It holds no path.
    NoPath,
    /// The path it holds is not a string.
    PathNotText,
}

/// The value of a key: that of the first entry with this key.
pub open spec fn value_of(entries: Seq<(Seq<char>, Option<Seq<char>>)>, key: Seq<char>) -> Option<
    Option<Seq<char>>,
>
    decreases entries.len(),
{
    if entries.len() == 0 {
        None
    } else if entries[0].0 == key {
        Some(entries[0].1)
    } else {
        value_of(entries.drop_first(), key)
    }
}

/// The path that the entries of a workspace's metadata record; others are
/// ignored.
pub fn recorded_path(entries: Vec<TomlEntry>) -> (res: Result<WorkspaceMeta, MetaError>)
    ensures
        match value_of(toml_entry_views(entries@), "path"@) {
            Some(Some(path)) => res matches Ok(meta) && meta.path@ == path,
            Some(None) => res == Err::<WorkspaceMeta, MetaError>(MetaError::PathNotText),
            None => res == Err::<WorkspaceMeta, MetaError>(MetaError::NoPath),
        },
{
    let ghost all = toml_entry_views(entries@);
    let mut i: usize = 0;
    assert(all.skip(0) =~= all);
    while i < entries.len()
        invariant
            i <= entries@.len(),
            all == toml_entry_views(entries@),
            value_of(all, "path"@) == value_of(all.skip(i as int), "path"@),
        decreases entries.len() - i,
    {
        assert(all.skip(i as int)[0] == all[i as int]);
        assert(all.skip(i as int).drop_first() =~= all.skip(i + 1));
        if same_text(entries[i].0.as_str(), "path") {
            return match &entries[i].1 {
                Some(path) => Ok(WorkspaceMeta { path: path.clone() }),
                None => Err(MetaError::PathNotText),
            };
        }
        i += 1;
    }
    assert(all.skip(i as int) =~= seq![]);
    Err(MetaError::NoPath)
}

impl WorkspaceMeta {
    /// The metadata as a TOML document.
    pub fn to_toml(&self) -> (res: String)
        requires
            quotes_fit(bytes_of(self.path@)),
        ensures
            res@ == toml_entry("path"@, self.path@),
    {
        toml_document("path", self.path.as_str()).unwrap()
    }

    /// Reads the metadata from a TOML document. What [`Self::to_toml`] wrote
    /// gives back the path it was written for.
    pub fn from_toml(text: &str) -> (res: Result<WorkspaceMeta, MetaError>)
        ensures
            match toml_entries(text@) {
                Err(e) => res == Err::<WorkspaceMeta, MetaError>(MetaError::Syntax(e)),
                Ok(entries) => match value_of(entries, "path"@) {
                    Some(Some(path)) => res matches Ok(meta) && meta.path@ == path,
                    Some(None) => res == Err::<WorkspaceMeta, MetaError>(MetaError::PathNotText),
                    None => res == Err::<WorkspaceMeta, MetaError>(MetaError::NoPath),
                },
            },
            forall|path: Seq<char>|
                quotes_fit(bytes_of(path)) && text@ == #[trigger] toml_entry("path"@, path)
                    ==> res is Ok && res->Ok_0.path@ == path,
    {
        proof {
            reveal_strlit("path");
            assert(bare_key("path"@));
        }
        match toml_strings(text) {
            Ok(entries) => recorded_path(entries),
            Err(e) => Err(MetaError::Syntax(e)),
        }
    }
}

// ---------------------------------------------------------------------------
// Stale sessions
// ---------------------------------------------------------------------------

/// What came of sending a process no signal at all: the call's return value,
/// and the error number it left where it failed.
#[derive(Debug, Clone, Copy)]
pub struct Probe {
    pub ret: i32,
    pub errno: i32,
}

/// Why a session may not start.
#[derive(Debug, Clone, Copy)]
pub enum StaleError {
    /// The process that the PID file names is alive.
    Running { pid: i32 },
    /// The process that the PID file names belongs to another user.
    RunningElsewhere { pid: i32 },
}

/// What a [`StaleError`] tells the user.
pub open spec fn stale_error_text(e: StaleError) -> Seq<char> {
    match e {
        StaleError::Running { pid } => "another instance (pid "@ + signed_decimal(pid as int)
            + ") is already running for this workspace"@,
        StaleError::RunningElsewhere { pid } => "another instance (pid "@ + signed_decimal(
            pid as int,
        ) + ") is running for this workspace (owned by another user)"@,
    }
}

impl StaleError {
    /// What went wrong, in words.
    pub fn message(&self) -> (res: String)
        ensures
            res@ == stale_error_text(*self),
    {
        let mut res = "another instance (pid ".to_owned();
        match self {
            StaleError::Running { pid } => {
                push_signed(&mut res, *pid as i64);
                res.append(") is already running for this workspace");
            },
            StaleError::RunningElsewhere { pid } => {
                push_signed(&mut res, *pid as i64);
                res.append(") is running for this workspace (owned by another user)");
            },
        }
        res
    }
}

/// The process that the contents of a PID file name.
pub open spec fn pid_in(contents: Option<Seq<char>>) -> Option<i32> {
    match contents {
        Some(text) => i32_value(trimmed(text)),
        None => None,
    }
}

pub open spec fn opt_text(s: Option<String>) -> Option<Seq<char>> {
    match s {
        Some(s) => Some(s@),
        None => None,
    }
}

/// The process that a PID file names, if it could be read and names one.
pub fn recorded_pid(contents: &Option<String>) -> (res: Option<i32>)
    ensures
        res == pid_in(opt_text(*contents)),
{
    match contents {
        Some(text) => {
            let chars = to_chars(text.as_str());
            parse_i32(trim(chars.as_slice()))
        },
        None => None,
    }
}

/// What a probe of a recorded process says against starting a session.
///
/// A probe cannot tell PID reuse (a different process now owns that PID), an
/// inherent limitation of PID files. EPERM counts as alive, since the process
/// exists but is owned by another user.
pub open spec fn alive(pid: i32, probe: Probe) -> Option<StaleError> {
    if probe.ret == 0 {
        Some(StaleError::Running { pid })
    } else if probe.errno == EPERM {
        Some(StaleError::RunningElsewhere { pid })
    } else {
        None
    }
}

/// Check for a running instance and clean up stale state.
///
/// `contents` is what the PID file holds, if it could be read, and `probe` what
/// came of probing the process it names. Without a live process the answer is
/// the list of files to remove: the PID file, if it was there, and the socket.
pub fn check_stale(runtime_dir: &[u8], contents: &Option<String>, probe: &Option<Probe>) -> (res:
    Result<Vec<Vec<u8>>, StaleError>)
    requires
        probe is Some <==> pid_in(opt_text(*contents)) is Some,
    ensures
        match pid_in(opt_text(*contents)) {
            Some(pid) if alive(pid, probe->Some_0) is Some => res is Err && Some(res->Err_0)
                == alive(pid, probe->Some_0),
            _ => res matches Ok(files) && path_list(files@) == stale_files(
                runtime_dir@,
                contents is Some,
            ),
        },
        (pid_in(opt_text(*contents)) matches Some(pid) ==> {
            &&& probe->Some_0.ret == 0 ==> res == Err::<Vec<Vec<u8>>, StaleError>(
                StaleError::Running { pid },
            )
            &&& probe->Some_0.ret != 0 && probe->Some_0.errno == 1 ==> res == Err::<
                Vec<Vec<u8>>,
                StaleError,
            >(StaleError::RunningElsewhere { pid })
            &&& probe->Some_0.ret != 0 && probe->Some_0.errno != 1 ==> res is Ok
        }),
        pid_in(opt_text(*contents)) is None ==> res is Ok,
{
    let pid_path = join(runtime_dir, PID_NAME.as_bytes());
    let mut files: Vec<Vec<u8>> = Vec::new();
    if contents.is_some() {
        if let Some(pid) = recorded_pid(contents) {
            if let Some(probe) = probe {
                if probe.ret == 0 {
                    return Err(StaleError::Running { pid });
                }
                if probe.errno == EPERM {
                    return Err(StaleError::RunningElsewhere { pid });
                }
            }
        }
        files.push(pid_path);
    }
    files.push(join(runtime_dir, SOCKET_NAME.as_bytes()));
    assert(path_list(files@) =~= stale_files(runtime_dir@, contents is Some));
    Ok(files)
}

/// The files a dead session left behind.
pub open spec fn stale_files(runtime_dir: Seq<u8>, had_pid_file: bool) -> Seq<Seq<u8>> {
    let socket = joined(runtime_dir, bytes_of(SOCKET_NAME@));
    if had_pid_file {
        seq![joined(runtime_dir, bytes_of(PID_NAME@)), socket]
    } else {
        seq![socket]
    }
}

/// The runtime artifacts to remove when a session ends: socket and PID file.
pub fn cleanup(layout: &Layout) -> (res: Vec<Vec<u8>>)
    ensures
        path_list(res@) == seq![layout@.socket_path, layout@.pid_path],
{
    let mut files: Vec<Vec<u8>> = Vec::new();
    files.push(path_copy(layout.socket_path.as_slice()));
    files.push(path_copy(layout.pid_path.as_slice()));
    assert(path_list(files@) =~= seq![layout@.socket_path, layout@.pid_path]);
    files
}

// ---------------------------------------------------------------------------
// Laws
// ---------------------------------------------------------------------------

proof fn lemma_relative_name(name: &str)
    requires
        is_ascii(name),
        name@.len() > 0 ==> name@[0] != '/',
    ensures
        !absolute(bytes_of(name@)),
{
    is_ascii_spec_bytes(name);
}

proof fn lemma_id_relative(id: Seq<char>)
    requires
        is_workspace_id(id),
    ensures
        !absolute(bytes_of(id)),
{
    assert(vstd::utf8::is_ascii_chars(id));
    vstd::utf8::is_ascii_chars_encode_utf8(id);
}

/// A session's state lies within the data home, and what is exposed to the
/// sandbox within the workspace.
pub proof fn law_layout_stays_within(workspace: Seq<u8>, id: Seq<char>, data_home: Seq<u8>)
    requires
        is_workspace_id(id),
    ensures
        ({
            let layout = layout_of(workspace, id, data_home);
            &&& within(layout.data_dir, data_home)
            &&& within(layout.home_dir, layout.data_dir)
            &&& within(layout.log_path, layout.data_dir)
            &&& within(layout.runtime_dir, workspace)
            &&& within(layout.socket_path, layout.runtime_dir)
            &&& within(layout.pid_path, layout.runtime_dir)
            &&& within(layout.socket_path, workspace)
            &&& within(layout.pid_path, workspace)
        }),
{
    let layout = layout_of(workspace, id, data_home);
    reveal_strlit("agent-shell-tools");
    reveal_strlit("home");
    reveal_strlit("sandbox.log");
    reveal_strlit(".agent-shell-tools");
    reveal_strlit("grpc_exec.sock");
    reveal_strlit("launcher.pid");
    lemma_relative_name("agent-shell-tools");
    lemma_relative_name("home");
    lemma_relative_name("sandbox.log");
    lemma_relative_name(RUNTIME_DIR_NAME);
    lemma_relative_name(SOCKET_NAME);
    lemma_relative_name(PID_NAME);
    lemma_id_relative(id);
    let tools = joined(data_home, bytes_of("agent-shell-tools"@));
    law_join_stays_within(data_home, bytes_of("agent-shell-tools"@));
    law_join_stays_within(tools, bytes_of(id));
    law_within_is_transitive(layout.data_dir, tools, data_home);
    law_join_stays_within(layout.data_dir, bytes_of("home"@));
    law_join_stays_within(layout.data_dir, bytes_of("sandbox.log"@));
    law_join_stays_within(workspace, bytes_of(RUNTIME_DIR_NAME@));
    law_join_stays_within(layout.runtime_dir, bytes_of(SOCKET_NAME@));
    law_join_stays_within(layout.runtime_dir, bytes_of(PID_NAME@));
    law_within_is_transitive(layout.socket_path, layout.runtime_dir, workspace);
    law_within_is_transitive(layout.pid_path, layout.runtime_dir, workspace);
}

/// The files that a session's end removes are the very ones that the next
/// start would count as left behind.
pub proof fn law_cleanup_leaves_nothing_stale(workspace: Seq<u8>, id: Seq<char>, data_home: Seq<u8>)
    ensures
        ({
            let layout = layout_of(workspace, id, data_home);
            stale_files(layout.runtime_dir, true) == seq![layout.pid_path, layout.socket_path]
        }),
{
}

proof fn lemma_join_utf8(base: Seq<u8>, tail: Seq<u8>)
    requires
        valid_utf8(base),
        valid_utf8(tail),
    ensures
        valid_utf8(joined(base, tail)),
{
    let slash = seq!['/'];
    vstd::utf8::encode_utf8_valid_utf8(slash);
    vstd::utf8::is_ascii_chars_encode_utf8(slash);
    assert(encode_utf8(slash) =~= seq![SLASH]);
    vstd::utf8::valid_utf8_concat(base, seq![SLASH]);
    assert(base + seq![SLASH] =~= base.push(SLASH));
    vstd::utf8::valid_utf8_concat(base.push(SLASH), tail);
    vstd::utf8::valid_utf8_concat(base, tail);
}

proof fn lemma_socket_path_utf8(workspace: Seq<u8>)
    requires
        valid_utf8(workspace),
    ensures
        valid_utf8(joined(runtime_dir_of(workspace), bytes_of(SOCKET_NAME@))),
{
    vstd::utf8::encode_utf8_valid_utf8(RUNTIME_DIR_NAME@);
    vstd::utf8::encode_utf8_valid_utf8(SOCKET_NAME@);
    lemma_join_utf8(workspace, bytes_of(RUNTIME_DIR_NAME@));
    lemma_join_utf8(runtime_dir_of(workspace), bytes_of(SOCKET_NAME@));
}

/// A process that could be probed is running, whatever its number, and so is one
/// that another user owns. Only a probe that failed in another way tells that it
/// is gone.
pub proof fn law_live_processes(pid: i32, probe: Probe)
    ensures
        probe.ret == 0 ==> alive(pid, probe) == Some(StaleError::Running { pid }),
        probe.ret != 0 && probe.errno == 1 ==> alive(pid, probe) == Some(
            StaleError::RunningElsewhere { pid },
        ),
        probe.ret != 0 && probe.errno != 1 ==> alive(pid, probe) is None,
{
}

/// Whether a process counts as alive does not depend on its number.
pub proof fn law_liveness_is_the_probes(a: i32, b: i32, probe: Probe)
    ensures
        alive(a, probe) is Some <==> alive(b, probe) is Some,
        alive(a, probe) matches Some(StaleError::Running { pid }) ==> pid == a && probe.ret == 0,
        alive(a, probe) matches Some(StaleError::RunningElsewhere { pid }) ==> pid == a
            && probe.ret != 0 && probe.errno == 1,
{
}

/// A PID file names the process whose number was written to it, whatever white
/// space surrounds the number. Without a PID file no process is named.
pub proof fn law_pid_files(before: Seq<char>, pid: i32, after: Seq<char>, text: Seq<char>)
    requires
        forall|k: int| 0 <= k < before.len() ==> white_space(#[trigger] before[k]),
        forall|k: int| 0 <= k < after.len() ==> white_space(#[trigger] after[k]),
    ensures
        pid_in(Some(before + signed_decimal(pid as int) + after)) == Some(pid),
        pid_in(Some(text)) is Some ==> integer_value(trimmed(text)) is Some && integer_value(
            trimmed(text),
        )->Some_0 == pid_in(Some(text))->Some_0,
        pid_in(Some(text)) is None ==> !(integer_value(trimmed(text)) matches Some(n)
            && -2147483648 <= n <= 2147483647),
        pid_in(None) is None,
{
    let s = signed_decimal(pid as int);
    law_signed_decimal_reads_back(pid as int);
    law_only_digits_are_integers(s, 0);
    law_only_digits_are_integers(s, s.len() - 1);
    assert(!white_space(s[0]));
    assert(!white_space(s.last()));
    law_trimming_takes_the_margins(before, s, after);
}

/// A path with a name added to it: a slash between them, unless the path is
/// empty or ends in one.
pub open spec fn named_in(dir: Seq<u8>, name: Seq<u8>) -> Seq<u8> {
    if dir.len() == 0 || dir[dir.len() - 1] == 47 {
        dir + name
    } else {
        dir + seq![47u8] + name
    }
}

proof fn lemma_named_in(dir: Seq<u8>, name: &str)
    requires
        is_ascii(name),
        name@.len() > 0,
        name@[0] != '/',
        name@.last() != '/',
    ensures
        joined(dir, bytes_of(name@)) == named_in(dir, encode_utf8(name@)),
        bytes_of(name@).len() == name@.len(),
        named_in(dir, encode_utf8(name@)).last() != 47,
{
    is_ascii_spec_bytes(name);
    let tail = encode_utf8(name@);
    assert(tail.last() == name@.last() as u8);
    law_joining(dir, tail);
    if dir.len() > 0 && dir.last() == 47 {
        law_joining(dir.drop_last(), tail);
        assert(dir.drop_last().push(47) =~= dir);
    } else if dir.len() == 0 {
        assert(dir =~= seq![]);
        assert(dir + tail =~= tail);
    }
    assert(named_in(dir, tail).last() == tail.last());
}

/// Where the parts of a session lie: the socket and the PID file in the
/// workspace's own runtime directory, the rest below the data home.
pub proof fn law_layout_paths(workspace: Seq<u8>, id: Seq<char>, data_home: Seq<u8>)
    requires
        is_workspace_id(id),
    ensures
        ({
            let layout = layout_of(workspace, id, data_home);
            let runtime = named_in(workspace, encode_utf8(".agent-shell-tools"@));
            let data = named_in(data_home, encode_utf8("agent-shell-tools"@)) + seq![47u8]
                + encode_utf8(id);
            &&& layout.workspace == workspace
            &&& layout.runtime_dir == runtime
            &&& layout.socket_path == runtime + seq![47u8] + encode_utf8("grpc_exec.sock"@)
            &&& layout.pid_path == runtime + seq![47u8] + encode_utf8("launcher.pid"@)
            &&& layout.data_dir == data
            &&& layout.home_dir == data + seq![47u8] + encode_utf8("home"@)
            &&& layout.log_path == data + seq![47u8] + encode_utf8("sandbox.log"@)
            &&& metadata_path_of(layout) == data + seq![47u8] + encode_utf8("workspace.toml"@)
        }),
{
    reveal_strlit("agent-shell-tools");
    reveal_strlit("home");
    reveal_strlit("sandbox.log");
    reveal_strlit(".agent-shell-tools");
    reveal_strlit("grpc_exec.sock");
    reveal_strlit("launcher.pid");
    reveal_strlit("workspace.toml");
    let layout = layout_of(workspace, id, data_home);
    lemma_named_in(workspace, RUNTIME_DIR_NAME);
    lemma_named_in(layout.runtime_dir, SOCKET_NAME);
    lemma_named_in(layout.runtime_dir, PID_NAME);
    let tools = joined(data_home, bytes_of("agent-shell-tools"@));
    lemma_named_in(data_home, "agent-shell-tools");
    assert(vstd::utf8::is_ascii_chars(id));
    vstd::utf8::is_ascii_chars_encode_utf8(id);
    law_joining(tools, bytes_of(id));
    assert(layout.data_dir == tools + seq![47u8] + bytes_of(id));
    assert(layout.data_dir.last() == bytes_of(id).last());
    assert(bytes_of(id).last() == id.last() as u8);
    lemma_named_in(layout.data_dir, "home");
    lemma_named_in(layout.data_dir, "sandbox.log");
    lemma_named_in(layout.data_dir, "workspace.toml");
}

/// The files that a dead session left behind are the PID file, if it was there,
/// and the socket.
pub proof fn law_stale_files(runtime_dir: Seq<u8>)
    ensures
        stale_files(runtime_dir, true) == seq![
            named_in(runtime_dir, encode_utf8("launcher.pid"@)),
            named_in(runtime_dir, encode_utf8("grpc_exec.sock"@)),
        ],
        stale_files(runtime_dir, false) == seq![
            named_in(runtime_dir, encode_utf8("grpc_exec.sock"@)),
        ],
{
    reveal_strlit("grpc_exec.sock");
    reveal_strlit("launcher.pid");
    lemma_named_in(runtime_dir, SOCKET_NAME);
    lemma_named_in(runtime_dir, PID_NAME);
}

/// An absolute path stands as it is; a relative one is seen from the user's
/// directory, where that is known.
pub proof fn law_resolving(path: Seq<u8>, dir: Seq<u8>, build_dir: Option<Seq<u8>>)
    ensures
        path.len() > 0 && path[0] == 47 ==> resolved(path, build_dir) == path,
        resolved(path, None) == path,
        path.len() == 0 || path[0] != 47 ==> resolved(path, Some(dir)) == named_in(dir, path),
{
    law_joining(dir, path);
    if dir.len() > 0 && dir.last() == 47 {
        law_joining(dir.drop_last(), path);
        assert(dir.drop_last().push(47) =~= dir);
    } else if dir.len() == 0 {
        assert(dir =~= seq![]);
        assert(dir + path =~= path);
    }
}

/// The data home is the one that was set, whatever the home directory, and else
/// lies below the home directory.
pub proof fn law_data_home(dir: Seq<u8>, home: Option<Seq<u8>>)
    ensures
        data_home_of(Some(dir), home) == Some(dir),
        data_home_of(None, Some(dir)) == Some(named_in(dir, encode_utf8(".local/share"@))),
        data_home_of(None, None) is None,
{
    reveal_strlit(".local/share");
    lemma_named_in(dir, ".local/share");
}

/// A workspace can be laid out if its path is UTF-8, a data home is known, and
/// its path leaves room for the socket's name, 33 bytes and a slash before them:
/// the whole may be 107 bytes long. The first of these that does not hold is
/// what is reported.
pub proof fn law_setup(workspace: Seq<u8>, xdg: Option<Seq<u8>>, home: Option<Seq<u8>>)
    ensures
        ({
            let res = setup_of(workspace, xdg, home);
            let slash: int = if workspace.len() == 0 || workspace.last() == 47 {
                0
            } else {
                1
            };
            let fits = workspace.len() + slash + 33 <= 107;
            let socket = named_in(workspace, encode_utf8(".agent-shell-tools"@)) + seq![47u8]
                + encode_utf8("grpc_exec.sock"@);
            &&& !valid_utf8(workspace) ==> res == Err::<LayoutView, SetupErrorView>(
                SetupErrorView::WorkspaceNotUtf8 { shown: lossy_utf8(workspace) },
            )
            &&& valid_utf8(workspace) && xdg is None && home is None ==> res == Err::<
                LayoutView,
                SetupErrorView,
            >(SetupErrorView::NoDataHome)
            &&& valid_utf8(workspace) && (xdg is Some || home is Some) ==> if fits {
                &&& res is Ok
                &&& res->Ok_0.workspace == workspace
                &&& res->Ok_0.socket_path == socket
                &&& socket.len() <= 107
                &&& forall|base: Seq<u8>|
                    data_home_of(xdg, home) == Some(base) ==> res->Ok_0 == #[trigger] layout_of(
                        workspace,
                        id_of_digest(sha256_digest(workspace)),
                        base,
                    )
            } else {
                &&& res == Err::<LayoutView, SetupErrorView>(
                    SetupErrorView::SocketPathTooLong { socket },
                )
                &&& socket.len() > 107
            }
        }),
{
    reveal_strlit(".agent-shell-tools");
    reveal_strlit("grpc_exec.sock");
    lemma_named_in(workspace, RUNTIME_DIR_NAME);
    lemma_named_in(runtime_dir_of(workspace), SOCKET_NAME);
}

/// The ID is written with the digits of the digest's first eight bytes, so two
/// workspaces have one ID only if their digests begin alike.
pub proof fn law_workspace_ids(digest: Seq<u8>, other: Seq<u8>, i: int)
    requires
        digest.len() >= 8,
        other.len() >= 8,
        0 <= i < 8,
    ensures
        id_of_digest(digest).len() == 16,
        hex_digit_means(id_of_digest(digest)[2 * i], digest[i] as int / 16),
        hex_digit_means(id_of_digest(digest)[2 * i + 1], digest[i] as int % 16),
        id_of_digest(digest) == id_of_digest(other) <==> digest.take(8) == other.take(8),
        id_of(digest) == id_of_digest(sha256_digest(digest)),
{
    law_hex_digits(digest.take(8), i);
    if id_of_digest(digest) == id_of_digest(other) {
        law_hex_tells_apart(digest.take(8), other.take(8));
    }
}

/// A key has the value of its first entry, and none if it has no entry.
pub proof fn law_first_value_counts(
    entries: Seq<(Seq<char>, Option<Seq<char>>)>,
    key: Seq<char>,
    i: int,
)
    ensures
        0 <= i < entries.len() && entries[i].0 == key && (forall|j: int|
            0 <= j < i ==> (#[trigger] entries[j]).0 != key) ==> value_of(entries, key) == Some(
            entries[i].1,
        ),
        (forall|j: int| 0 <= j < entries.len() ==> (#[trigger] entries[j]).0 != key) ==> value_of(
            entries,
            key,
        ) is None,
    decreases entries.len(),
{
    if entries.len() > 0 {
        let rest = entries.drop_first();
        law_first_value_counts(rest, key, i - 1);
        if entries[0].0 != key {
            if 0 <= i < entries.len() && entries[i].0 == key && (forall|j: int|
                0 <= j < i ==> (#[trigger] entries[j]).0 != key) {
                assert(rest[i - 1] == entries[i]);
                assert forall|j: int| 0 <= j < i - 1 implies (#[trigger] rest[j]).0 != key by {
                    assert(rest[j] == entries[j + 1]);
                }
            }
            if forall|j: int| 0 <= j < entries.len() ==> (#[trigger] entries[j]).0 != key {
                assert forall|j: int| 0 <= j < rest.len() implies (#[trigger] rest[j]).0 != key by {
                    assert(rest[j] == entries[j + 1]);
                }
            }
        }
    }
}

/// A text has too many equal quotes exactly if 256 of them follow one another,
/// so no text of up to 255 bytes has.
pub proof fn law_quotes(bytes: Seq<u8>, at: int, quote: u8)
    ensures
        bytes.len() <= 255 ==> quotes_fit(bytes),
        (quote == 34 || quote == 39) && 0 <= at && at + 256 <= bytes.len() && (forall|j: int|
            at <= j < at + 256 ==> #[trigger] bytes[j] == quote) ==> !quotes_fit(bytes),
        !quotes_fit(bytes) ==> exists|i: int|
            #![trigger bytes[i]]
            0 <= i && i + 256 <= bytes.len() && (bytes[i] == 34 || bytes[i] == 39) && forall|j: int|
                i <= j < i + 256 ==> #[trigger] bytes[j] == bytes[i],
{
    if (quote == 34 || quote == 39) && 0 <= at && at + 256 <= bytes.len() && (forall|j: int|
        at <= j < at + 256 ==> #[trigger] bytes[j] == quote) {
        assert(bytes[at] == quote);
        assert(long_quote_run(bytes, at));
    }
    if !quotes_fit(bytes) {
        let i = choose|i: int| #[trigger] long_quote_run(bytes, i);
        assert(bytes[i] == 34 || bytes[i] == 39);
        assert(forall|j: int| i <= j < i + 256 ==> #[trigger] bytes[j] == bytes[i]);
    }
}

/// What went wrong is said with the paths, lengths and numbers at hand.
pub proof fn law_workspace_messages(text: String, pid: i32)
    ensures
        setup_error_text(SetupError::WorkspaceNotUtf8 { shown: text })
            == "workspace path is not valid UTF-8: "@ + text@,
        setup_error_text(SetupError::NoDataHome) == "neither XDG_DATA_HOME nor HOME is set"@,
        setup_error_text(SetupError::SocketPathTooLong { socket: text }) == "socket path is "@
            + decimal(encode_utf8(text@).len()) + " bytes, exceeds Unix limit of "@ + decimal(107)
            + ": "@ + text@,
        stale_error_text(StaleError::Running { pid }) == "another instance (pid "@
            + signed_decimal(pid as int) + ") is already running for this workspace"@,
        stale_error_text(StaleError::RunningElsewhere { pid }) == "another instance (pid "@
            + signed_decimal(pid as int)
            + ") is running for this workspace (owned by another user)"@,
{
}

/// Layouts, errors, entries and optional texts show all that they say.
pub proof fn law_workspace_views(
    layout: Layout,
    text: String,
    entries: Seq<TomlEntry>,
    i: int,
    e: toml::de::Error,
    read: Vec<TomlEntry>,
)
    requires
        0 <= i < entries.len(),
    ensures
        layout@.workspace == layout.workspace@,
        layout@.data_dir == layout.data_dir@,
        layout@.home_dir == layout.home_dir@,
        layout@.runtime_dir == layout.runtime_dir@,
        layout@.socket_path == layout.socket_path@,
        layout@.pid_path == layout.pid_path@,
        layout@.log_path == layout.log_path@,
        (SetupError::WorkspaceNotUtf8 { shown: text })@ == (SetupErrorView::WorkspaceNotUtf8 {
            shown: text@,
        }),
        SetupError::NoDataHome@ is NoDataHome,
        (SetupError::SocketPathTooLong { socket: text })@ == (SetupErrorView::SocketPathTooLong {
            socket: encode_utf8(text@),
        }),
        toml_entry_views(entries).len() == entries.len(),
        toml_entry_views(entries)[i].0 == entries[i].0@,
        entries[i].1 is None <==> toml_entry_views(entries)[i].1 is None,
        entries[i].1 matches Some(value) ==> toml_entry_views(entries)[i].1 == Some(value@),
        toml_read_view(Ok(read)) == Ok::<
            Seq<(Seq<char>, Option<Seq<char>>)>,
            toml::de::Error,
        >(toml_entry_views(read@)),
        toml_read_view(Err(e)) == Err::<
            Seq<(Seq<char>, Option<Seq<char>>)>,
            toml::de::Error,
        >(e),
        bytes_of(text@) == encode_utf8(text@),
        opt_bytes(Some(text)) == Some(encode_utf8(text@)),
        opt_bytes(None) is None,
        opt_text(Some(text)) == Some(text@),
        opt_text(None) is None,
{
}

} // verus!
